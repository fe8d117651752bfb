//! The tab container: an ordered sequence of tab widgets, one active, over
//! the window state.  It opens, closes and cycles tabs, routes events to
//! the active tab and lifecycle notifications to every tab, lays the active
//! tab out under the tab strip, and plans the strip chrome.  Each operation
//! promises exactly the model transition of `crate::model`, so the
//! invariant — active index valid, active identifier in step — is carried
//! along every run of operations.

use vstd::prelude::*;
use vstd::pervasive::VecAdditionalExecFns;
use vstd::pervasive::unreached;
use crate::data::{LapceWindowData, TabState, has_key, key_index, keys_distinct, lemma_key_index};
use crate::laws::{
    lemma_close_preserves_wf, lemma_open_preserves_wf, lemma_select_preserves_wf,
};
use crate::model::{
    WinModel, close_tab_model, next_tab_model, open_tab_model, prev_tab_model, wf, workspace_at,
};
use crate::ui::{Command, Event, EventCtx, LayoutCtx, LifeCycleCtx, PaintOp, Point, Size, Target,
    UpdateCtx};
use crate::workspace::{
    LapceWorkspace, has_final_segment, tab_label, tab_label_view, workspace_opt_eq,
    workspace_opt_eqv,
};

verus! {

/// Height of the tab strip, in logical units.
pub const TAB_HEIGHT: u64 = 25;

/// The window's tab container: the open tabs' widget identifiers, in strip
/// order.  The widgets themselves live with the host toolkit; the
/// container steers them by identifier.
pub struct LapceWindowNew {
    pub tabs: Vec<u64>,
}

/// The model a container and its window state denote together.
pub open spec fn win_model(w: LapceWindowNew, d: LapceWindowData) -> WinModel {
    WinModel {
        widgets: w.tabs@,
        states: d.tabs.kv(),
        active: d.active as int,
        active_id: d.active_id,
        next_id: d.next_id,
    }
}

/// Every tab state whose workspace is bound has a displayable final path
/// segment, so each strip label is defined.
pub open spec fn labels_ok(s: Seq<(u64, TabState)>) -> bool {
    forall|k: int|
        0 <= k < s.len() ==> ((#[trigger] s[k]).1.workspace matches Some(w) ==> has_final_segment(
            w,
        ))
}

/// The geometry the active tab is given: the full area when it is alone,
/// else the area below the strip.
pub open spec fn tab_geometry(n: int, max_size: Size) -> (Size, Point) {
    if n > 1 {
        (
            Size { width: max_size.width, height: (max_size.height - TAB_HEIGHT) as u64 },
            Point { x: 0, y: TAB_HEIGHT },
        )
    } else {
        (max_size, Point { x: 0, y: 0 })
    }
}

/// Strip section steps for one section: the active-tab fill under the
/// active section, then the section's label.
pub open spec fn section_ops(i: int, active: int) -> Seq<PaintOp> {
    if i == active {
        seq![
            PaintOp::ActiveSectionFill { index: i as usize },
            PaintOp::SectionLabel { index: i as usize },
        ]
    } else {
        seq![PaintOp::SectionLabel { index: i as usize }]
    }
}

/// Strip section steps for the sections before `k`, in order.
pub open spec fn sections_upto(k: int, active: int) -> Seq<PaintOp>
    decreases k,
{
    if k <= 0 {
        Seq::<PaintOp>::empty()
    } else {
        sections_upto(k - 1, active) + section_ops(k - 1, active)
    }
}

/// Divider steps at the left edges of sections `1 .. k`, in order.
pub open spec fn dividers_upto(k: int) -> Seq<PaintOp>
    decreases k,
{
    if k <= 1 {
        Seq::<PaintOp>::empty()
    } else {
        dividers_upto(k - 1).push(PaintOp::SectionDivider { index: (k - 1) as usize })
    }
}

/// The container's paint plan.  With one tab there is no strip: the tab
/// paints the whole area.  With more, the strip background, each section
/// (the active one filled), the dividers, then the active tab's content,
/// and on top of it the active section's fill and label again and the
/// strip's bottom border, so the active indicator is never occluded.
pub open spec fn paint_plan(widgets: Seq<u64>, active: int) -> Seq<PaintOp> {
    if widgets.len() <= 1 {
        seq![PaintOp::TabContent { id: widgets[active] }]
    } else {
        let n = widgets.len() as int;
        seq![PaintOp::StripBackground] + sections_upto(n, active) + dividers_upto(n) + seq![
            PaintOp::TabContent { id: widgets[active] },
            PaintOp::ActiveSectionFill { index: active as usize },
            PaintOp::SectionLabel { index: active as usize },
            PaintOp::StripBottomBorder,
        ]
    }
}

impl LapceWindowNew {
    /// Builds one widget per existing tab entry, in the state mapping's
    /// insertion order.  No side effects.
    pub fn new(data: &LapceWindowData) -> (w: LapceWindowNew)
        ensures
            w.tabs@.len() == data.tabs.kv().len(),
            forall|i: int| 0 <= i < w.tabs@.len() ==> w.tabs@[i] == (#[trigger] data.tabs.kv()[i]).0,
    {
        LapceWindowNew { tabs: data.tabs.keys_vec() }
    }

    /// Opens a tab: allocates a fresh identifier, creates its state with
    /// the given workspace binding, and either replaces the active tab
    /// (stopping the replaced tab's background handle) or inserts right
    /// after it.  The new tab becomes active; a broadcast focus command is
    /// submitted, the event is marked handled, and a layout pass is
    /// requested.  Returns the identifier whose background handle the host
    /// must now stop, if any.
    pub fn new_tab(
        &mut self,
        ctx: &mut EventCtx,
        data: &mut LapceWindowData,
        workspace: Option<LapceWorkspace>,
        replace_current: bool,
    ) -> (stopped: Option<u64>)
        requires
            wf(win_model(*old(self), *old(data))),
            old(data).next_id < u64::MAX,
        ensures
            (win_model(*final(self), *final(data)), stopped) == open_tab_model(
                win_model(*old(self), *old(data)),
                workspace,
                replace_current,
            ),
            wf(win_model(*final(self), *final(data))),
            final(ctx).commands@ == old(ctx).commands@.push((Command::FocusTab, Target::Auto)),
            final(ctx).delivered@ == old(ctx).delivered@,
            final(ctx).handled,
            final(ctx).layout_requested,
            final(ctx).children_changed,
    {
        let ghost ws = workspace;
        let ghost m0 = win_model(*self, *data);
        let tab_id = data.next_id;
        data.next_id = data.next_id + 1;
        data.tabs.insert(tab_id, TabState { workspace });
        let stopped: Option<u64>;
        if replace_current {
            self.tabs.set(data.active, tab_id);
            stopped = match data.tabs.remove(data.active_id) {
                Some(_) => Some(data.active_id),
                None => None,
            };
            data.active_id = tab_id;
        } else {
            let len = self.tabs.len();
            proof {
                assert(data.active < len);
            }
            self.tabs.insert(data.active + 1, tab_id);
            data.active = data.active + 1;
            data.active_id = tab_id;
            stopped = None;
        }
        ctx.commands.push((Command::FocusTab, Target::Auto));
        ctx.children_changed = true;
        ctx.handled = true;
        ctx.layout_requested = true;
        proof {
            lemma_open_preserves_wf(m0, ws, replace_current);
            assert(win_model(*self, *data) =~= open_tab_model(m0, ws, replace_current).0);
        }
        stopped
    }

    /// Closes the active tab; a no-op while only one tab is open, since a
    /// container always retains at least one.  Otherwise the active tab's
    /// widget and state go away, the active index is clamped to the new
    /// last index if needed, the active identifier is resynchronized, a
    /// broadcast focus command is submitted, the event is marked handled,
    /// and a layout pass is requested.  Returns the identifier whose
    /// background handle the host must now stop, if any.
    pub fn close_tab(
        &mut self,
        ctx: &mut EventCtx,
        data: &mut LapceWindowData,
    ) -> (stopped: Option<u64>)
        requires
            wf(win_model(*old(self), *old(data))),
        ensures
            (win_model(*final(self), *final(data)), stopped) == close_tab_model(
                win_model(*old(self), *old(data)),
            ),
            wf(win_model(*final(self), *final(data))),
            old(data).tabs.kv().len() == 1 ==> *final(ctx) == *old(ctx),
            old(data).tabs.kv().len() != 1 ==> {
                &&& final(ctx).commands@ == old(ctx).commands@.push(
                    (Command::FocusTab, Target::Auto),
                )
                &&& final(ctx).delivered@ == old(ctx).delivered@
                &&& final(ctx).handled
                &&& final(ctx).layout_requested
                &&& final(ctx).children_changed
            },
    {
        let ghost m0 = win_model(*self, *data);
        if data.tabs.len() == 1 {
            return None;
        }
        self.tabs.remove(data.active);
        let stopped = match data.tabs.remove(data.active_id) {
            Some(_) => Some(data.active_id),
            None => None,
        };
        if data.active >= self.tabs.len() {
            data.active = self.tabs.len() - 1;
        }
        data.active_id = self.tabs[data.active];
        ctx.commands.push((Command::FocusTab, Target::Auto));
        ctx.children_changed = true;
        ctx.handled = true;
        ctx.layout_requested = true;
        proof {
            lemma_close_preserves_wf(m0);
            assert(win_model(*self, *data) =~= close_tab_model(m0).0);
        }
        stopped
    }

    /// Advances the active index circularly, wrapping from the last tab to
    /// the first; resynchronizes the active identifier, submits a
    /// broadcast focus command, requests a layout pass, and marks the
    /// event handled.
    pub fn next_tab(&self, ctx: &mut EventCtx, data: &mut LapceWindowData)
        requires
            wf(win_model(*self, *old(data))),
        ensures
            win_model(*self, *final(data)) == next_tab_model(win_model(*self, *old(data))),
            wf(win_model(*self, *final(data))),
            final(ctx).commands@ == old(ctx).commands@.push((Command::FocusTab, Target::Auto)),
            final(ctx).delivered@ == old(ctx).delivered@,
            final(ctx).handled,
            final(ctx).layout_requested,
            final(ctx).children_changed == old(ctx).children_changed,
    {
        let ghost m0 = win_model(*self, *data);
        let new_index: usize = if data.active >= self.tabs.len() - 1 {
            0
        } else {
            data.active + 1
        };
        data.active = new_index;
        data.active_id = self.tabs[new_index];
        ctx.commands.push((Command::FocusTab, Target::Auto));
        ctx.layout_requested = true;
        ctx.handled = true;
        proof {
            lemma_select_preserves_wf(m0);
            assert(win_model(*self, *data) =~= next_tab_model(m0));
        }
    }

    /// Retreats the active index circularly, wrapping from the first tab
    /// to the last; otherwise as `next_tab`.
    pub fn previous_tab(&self, ctx: &mut EventCtx, data: &mut LapceWindowData)
        requires
            wf(win_model(*self, *old(data))),
        ensures
            win_model(*self, *final(data)) == prev_tab_model(win_model(*self, *old(data))),
            wf(win_model(*self, *final(data))),
            final(ctx).commands@ == old(ctx).commands@.push((Command::FocusTab, Target::Auto)),
            final(ctx).delivered@ == old(ctx).delivered@,
            final(ctx).handled,
            final(ctx).layout_requested,
            final(ctx).children_changed == old(ctx).children_changed,
    {
        let ghost m0 = win_model(*self, *data);
        let new_index: usize = if data.active == 0 {
            self.tabs.len() - 1
        } else {
            data.active - 1
        };
        data.active = new_index;
        data.active_id = self.tabs[new_index];
        ctx.commands.push((Command::FocusTab, Target::Auto));
        ctx.layout_requested = true;
        ctx.handled = true;
        proof {
            lemma_select_preserves_wf(m0);
            assert(win_model(*self, *data) =~= prev_tab_model(m0));
        }
    }

    /// Handles one event.  A recognized container command performs the
    /// corresponding operation; opening and closing consume the event,
    /// while the selection commands, unrecognized commands and every other
    /// event are forwarded to the (possibly newly) active tab's widget —
    /// and only to it; inactive tabs never receive input events.  Returns
    /// the identifier whose background handle the host must now stop, if
    /// any.
    pub fn event(
        &mut self,
        ctx: &mut EventCtx,
        event: Event,
        data: &mut LapceWindowData,
    ) -> (stopped: Option<u64>)
        requires
            wf(win_model(*old(self), *old(data))),
            event matches Event::Command(Command::SetWorkspace(_)) ==> old(data).next_id
                < u64::MAX,
            event matches Event::Command(Command::NewTab) ==> old(data).next_id < u64::MAX,
        ensures
            wf(win_model(*final(self), *final(data))),
            event matches Event::Command(Command::SetWorkspace(ws)) ==> {
                &&& (win_model(*final(self), *final(data)), stopped) == open_tab_model(
                    win_model(*old(self), *old(data)),
                    Some(ws),
                    true,
                )
                &&& final(ctx).commands@ == old(ctx).commands@.push(
                    (Command::FocusTab, Target::Auto),
                )
                &&& final(ctx).delivered@ == old(ctx).delivered@
                &&& final(ctx).handled
                &&& final(ctx).layout_requested
                &&& final(ctx).children_changed
            },
            event matches Event::Command(Command::NewTab) ==> {
                &&& (win_model(*final(self), *final(data)), stopped) == open_tab_model(
                    win_model(*old(self), *old(data)),
                    None,
                    false,
                )
                &&& final(ctx).commands@ == old(ctx).commands@.push(
                    (Command::FocusTab, Target::Auto),
                )
                &&& final(ctx).delivered@ == old(ctx).delivered@
                &&& final(ctx).handled
                &&& final(ctx).layout_requested
                &&& final(ctx).children_changed
            },
            event matches Event::Command(Command::CloseTab) ==> {
                &&& (win_model(*final(self), *final(data)), stopped) == close_tab_model(
                    win_model(*old(self), *old(data)),
                )
                &&& final(ctx).delivered@ == old(ctx).delivered@
                &&& (old(data).tabs.kv().len() == 1 ==> *final(ctx) == *old(ctx))
                &&& (old(data).tabs.kv().len() != 1 ==> {
                    &&& final(ctx).commands@ == old(ctx).commands@.push(
                        (Command::FocusTab, Target::Auto),
                    )
                    &&& final(ctx).handled
                    &&& final(ctx).layout_requested
                    &&& final(ctx).children_changed
                })
            },
            event matches Event::Command(Command::NextTab) ==> {
                &&& win_model(*final(self), *final(data)) == next_tab_model(
                    win_model(*old(self), *old(data)),
                )
                &&& stopped is None
                &&& final(ctx).commands@ == old(ctx).commands@.push(
                    (Command::FocusTab, Target::Auto),
                )
                &&& final(ctx).delivered@ == old(ctx).delivered@.push(
                    next_tab_model(win_model(*old(self), *old(data))).active_id,
                )
                &&& final(ctx).handled
                &&& final(ctx).layout_requested
            },
            event matches Event::Command(Command::PreviousTab) ==> {
                &&& win_model(*final(self), *final(data)) == prev_tab_model(
                    win_model(*old(self), *old(data)),
                )
                &&& stopped is None
                &&& final(ctx).commands@ == old(ctx).commands@.push(
                    (Command::FocusTab, Target::Auto),
                )
                &&& final(ctx).delivered@ == old(ctx).delivered@.push(
                    prev_tab_model(win_model(*old(self), *old(data))).active_id,
                )
                &&& final(ctx).handled
                &&& final(ctx).layout_requested
            },
            (event matches Event::Other || event matches Event::Command(Command::FocusTab)
                || event matches Event::Command(Command::UpdateWindowOrigin)) ==> {
                &&& win_model(*final(self), *final(data)) == win_model(*old(self), *old(data))
                &&& stopped is None
                &&& final(ctx).delivered@ == old(ctx).delivered@.push(old(data).active_id)
                &&& final(ctx).commands@ == old(ctx).commands@
                &&& final(ctx).handled == old(ctx).handled
                &&& final(ctx).layout_requested == old(ctx).layout_requested
                &&& final(ctx).children_changed == old(ctx).children_changed
            },
    {
        match event {
            Event::Command(cmd) => match cmd {
                Command::SetWorkspace(ws) => self.new_tab(ctx, data, Some(ws), true),
                Command::NewTab => self.new_tab(ctx, data, None, false),
                Command::CloseTab => self.close_tab(ctx, data),
                Command::NextTab => {
                    self.next_tab(ctx, data);
                    ctx.delivered.push(self.tabs[data.active]);
                    None
                },
                Command::PreviousTab => {
                    self.previous_tab(ctx, data);
                    ctx.delivered.push(self.tabs[data.active]);
                    None
                },
                Command::FocusTab => {
                    ctx.delivered.push(self.tabs[data.active]);
                    None
                },
                Command::UpdateWindowOrigin => {
                    ctx.delivered.push(self.tabs[data.active]);
                    None
                },
            },
            Event::Other => {
                ctx.delivered.push(self.tabs[data.active]);
                None
            },
        }
    }

    /// Forwards a window-level lifecycle notification to every tab widget
    /// unconditionally, active and inactive alike, in strip order.
    pub fn lifecycle(&self, ctx: &mut LifeCycleCtx, _data: &LapceWindowData)
        ensures
            final(ctx).delivered@ == old(ctx).delivered@ + self.tabs@,
    {
        let n = self.tabs.len();
        proof {
            assert(ctx.delivered@ =~= old(ctx).delivered@ + self.tabs@.subrange(0, 0));
        }
        let mut i: usize = 0;
        while i < n
            invariant
                i <= n,
                n == self.tabs@.len(),
                ctx.delivered@ == old(ctx).delivered@ + self.tabs@.subrange(0, i as int),
            decreases n - i,
        {
            ctx.delivered.push(self.tabs[i]);
            proof {
                assert(ctx.delivered@ =~= old(ctx).delivered@ + self.tabs@.subrange(
                    0,
                    i as int + 1,
                ));
            }
            i += 1;
        }
        proof {
            assert(self.tabs@.subrange(0, n as int) =~= self.tabs@);
        }
    }

    /// Propagates a data update to the active tab's widget only, and
    /// requests a layout pass when the active index changed or the active
    /// tab's workspace binding changed between the old and the new state.
    pub fn update(&self, ctx: &mut UpdateCtx, old_data: &LapceWindowData, data: &LapceWindowData)
        requires
            data.active < self.tabs@.len(),
            has_key(old_data.tabs.kv(), old_data.active_id),
            has_key(data.tabs.kv(), data.active_id),
        ensures
            final(ctx).layout_requested == (old(ctx).layout_requested || old_data.active
                != data.active || !workspace_opt_eqv(
                active_workspace(*old_data),
                active_workspace(*data),
            )),
            final(ctx).delivered@ == old(ctx).delivered@.push(self.tabs@[data.active as int]),
    {
        if old_data.active != data.active {
            ctx.layout_requested = true;
        }
        let old_tab = match old_data.tabs.get(old_data.active_id) {
            Some(t) => t,
            None => unreached(),
        };
        let tab = match data.tabs.get(data.active_id) {
            Some(t) => t,
            None => unreached(),
        };
        if !workspace_opt_eq(&old_tab.workspace, &tab.workspace) {
            ctx.layout_requested = true;
        }
        ctx.delivered.push(self.tabs[data.active]);
    }

    /// Lays the container out: the active tab gets the full area when it
    /// is alone, else the area below the fixed-height strip, under tight
    /// constraints; a window-origin update is then addressed to the active
    /// tab's widget.  The container always fills its allotted space.
    pub fn layout(
        &self,
        ctx: &mut LayoutCtx,
        max_size: Size,
        data: &LapceWindowData,
    ) -> (size: Size)
        requires
            data.active < self.tabs@.len(),
            self.tabs@.len() > 1 ==> max_size.height >= TAB_HEIGHT,
        ensures
            size == max_size,
            final(ctx).child_layouts@ == old(ctx).child_layouts@.push(
                (
                    self.tabs@[data.active as int],
                    tab_geometry(self.tabs@.len() as int, max_size).0,
                    tab_geometry(self.tabs@.len() as int, max_size).1,
                ),
            ),
            final(ctx).commands@ == old(ctx).commands@.push(
                (Command::UpdateWindowOrigin, Target::Widget(data.active_id)),
            ),
    {
        let n = self.tabs.len();
        let tab_size: Size;
        let tab_origin: Point;
        if n > 1 {
            tab_size = Size { width: max_size.width, height: max_size.height - TAB_HEIGHT };
            tab_origin = Point { x: 0, y: TAB_HEIGHT };
        } else {
            tab_size = max_size;
            tab_origin = Point { x: 0, y: 0 };
        }
        ctx.child_layouts.push((self.tabs[data.active], tab_size, tab_origin));
        ctx.commands.push((Command::UpdateWindowOrigin, Target::Widget(data.active_id)));
        max_size
    }

    /// Plans the container's painting: exactly `paint_plan` of the current
    /// strip.  With one tab there is no strip chrome at all.
    pub fn paint(&self, data: &LapceWindowData) -> (ops: Vec<PaintOp>)
        requires
            wf(win_model(*self, *data)),
        ensures
            ops@ == paint_plan(self.tabs@, data.active as int),
    {
        let ghost active = data.active as int;
        let n = self.tabs.len();
        let mut ops: Vec<PaintOp> = Vec::new();
        if n > 1 {
            ops.push(PaintOp::StripBackground);
            proof {
                assert(ops@ =~= seq![PaintOp::StripBackground] + sections_upto(0, active));
            }
            let mut i: usize = 0;
            while i < n
                invariant
                    i <= n,
                    n == self.tabs@.len(),
                    active == data.active as int,
                    ops@ == seq![PaintOp::StripBackground] + sections_upto(i as int, active),
                decreases n - i,
            {
                if i == data.active {
                    ops.push(PaintOp::ActiveSectionFill { index: i });
                }
                ops.push(PaintOp::SectionLabel { index: i });
                proof {
                    assert(ops@ =~= seq![PaintOp::StripBackground] + sections_upto(
                        i as int + 1,
                        active,
                    ));
                }
                i += 1;
            }
            let ghost prefix = seq![PaintOp::StripBackground] + sections_upto(n as int, active);
            proof {
                assert(ops@ =~= prefix + dividers_upto(1));
            }
            let mut j: usize = 1;
            while j < n
                invariant
                    1 <= j <= n,
                    n == self.tabs@.len(),
                    prefix == seq![PaintOp::StripBackground] + sections_upto(n as int, active),
                    ops@ == prefix + dividers_upto(j as int),
                decreases n - j,
            {
                ops.push(PaintOp::SectionDivider { index: j });
                proof {
                    assert(ops@ =~= prefix + dividers_upto(j as int + 1));
                }
                j += 1;
            }
        }
        proof {
            assert(data.active < self.tabs@.len());
        }
        ops.push(PaintOp::TabContent { id: self.tabs[data.active] });
        if n > 1 {
            ops.push(PaintOp::ActiveSectionFill { index: data.active });
            ops.push(PaintOp::SectionLabel { index: data.active });
            ops.push(PaintOp::StripBottomBorder);
        }
        proof {
            assert(ops@ =~= paint_plan(self.tabs@, active));
        }
        ops
    }

    /// The strip labels, one per section in strip order: each tab's
    /// workspace label, or the fallback name where no workspace is bound.
    /// The host pairs them with the `SectionLabel` steps of `paint`.
    pub fn tab_labels(&self, data: &LapceWindowData) -> (labels: Vec<String>)
        requires
            wf(win_model(*self, *data)),
            labels_ok(data.tabs.kv()),
        ensures
            labels@.len() == self.tabs@.len(),
            forall|i: int|
                0 <= i < labels@.len() ==> labels@[i]@ == tab_label_view(
                    workspace_at(win_model(*self, *data), i),
                ),
    {
        let n = self.tabs.len();
        let mut labels: Vec<String> = Vec::new();
        let mut i: usize = 0;
        while i < n
            invariant
                i <= n,
                n == self.tabs@.len(),
                wf(win_model(*self, *data)),
                labels_ok(data.tabs.kv()),
                labels@.len() == i,
                forall|k: int|
                    0 <= k < i ==> labels@[k]@ == tab_label_view(
                        workspace_at(win_model(*self, *data), k),
                    ),
            decreases n - i,
        {
            let id = self.tabs[i];
            proof {
                assert(has_key(data.tabs.kv(), id));
                lemma_key_index(data.tabs.kv(), id);
            }
            let tab = match data.tabs.get(id) {
                Some(t) => t,
                None => unreached(),
            };
            let label = tab_label(&tab.workspace);
            labels.push(label);
            i += 1;
        }
        labels
    }
}

/// The workspace binding of the window's active tab.
pub open spec fn active_workspace(d: LapceWindowData) -> Option<LapceWorkspace> {
    d.tabs.kv()[key_index(d.tabs.kv(), d.active_id)].1.workspace
}

/// Whether `id` occurs in `v`.
fn contains_id(v: &Vec<u64>, id: u64) -> (r: bool)
    ensures
        r == v@.contains(id),
{
    let n = v.len();
    let mut i: usize = 0;
    while i < n
        invariant
            i <= n,
            n == v@.len(),
            forall|k: int| 0 <= k < i ==> v@[k] != id,
        decreases n - i,
    {
        if v[i] == id {
            return true;
        }
        i += 1;
    }
    false
}

/// Whether no identifier occurs twice in `v`.
fn all_distinct(v: &Vec<u64>) -> (r: bool)
    ensures
        r == v@.no_duplicates(),
{
    let n = v.len();
    let mut i: usize = 0;
    while i < n
        invariant
            i <= n,
            n == v@.len(),
            forall|p: int, q: int| 0 <= p < q < n && p < i ==> v@[p] != v@[q],
        decreases n - i,
    {
        let mut j: usize = i + 1;
        while j < n
            invariant
                i < j <= n,
                n == v@.len(),
                forall|q: int| i < q < j ==> v@[i as int] != v@[q],
            decreases n - j,
        {
            if v[i] == v[j] {
                proof {
                    assert(!v@.no_duplicates());
                }
                return false;
            }
            j += 1;
        }
        i += 1;
    }
    proof {
        assert forall|p: int, q: int|
            0 <= p < v@.len() && 0 <= q < v@.len() && p != q implies v@[p] != v@[q] by {
            if p < q {
            } else {
            }
        }
    }
    true
}

impl LapceWindowNew {
    /// Decides the container invariant on this container and window state,
    /// so an unverified host can test it before handing either to an
    /// operation that assumes it.
    pub fn check_wf(&self, data: &LapceWindowData) -> (r: bool)
        ensures
            r == wf(win_model(*self, *data)),
    {
        let ghost m = win_model(*self, *data);
        let n = self.tabs.len();
        if n == 0 {
            return false;
        }
        if data.tabs.len() != n {
            return false;
        }
        if data.active >= n {
            return false;
        }
        if data.active_id != self.tabs[data.active] {
            return false;
        }
        if !all_distinct(&self.tabs) {
            return false;
        }
        let keys = data.tabs.keys_vec();
        let keys_ok = all_distinct(&keys);
        proof {
            if keys_ok {
                assert forall|p: int, q: int|
                    0 <= p < q < m.states.len() implies (#[trigger] m.states[p]).0 != (
                #[trigger] m.states[q]).0 by {
                    assert(keys@[p] != keys@[q]);
                }
            } else {
                let (p, q) = choose|p: int, q: int|
                    0 <= p < keys@.len() && 0 <= q < keys@.len() && p != q && keys@[p] == keys@[q];
                if p < q {
                    assert(m.states[p].0 == m.states[q].0);
                } else {
                    assert(m.states[q].0 == m.states[p].0);
                }
                assert(!keys_distinct(m.states));
            }
        }
        if !keys_ok {
            return false;
        }
        let mut i: usize = 0;
        while i < n
            invariant
                i <= n,
                n == self.tabs@.len(),
                m == win_model(*self, *data),
                keys@.len() == m.states.len(),
                forall|k: int| 0 <= k < keys@.len() ==> keys@[k] == (#[trigger] m.states[k]).0,
                forall|k: int| 0 <= k < i ==> has_key(m.states, #[trigger] m.widgets[k]),
            decreases n - i,
        {
            let present = contains_id(&keys, self.tabs[i]);
            proof {
                if present {
                    let k = choose|k: int| 0 <= k < keys@.len() && keys@[k] == m.widgets[i as int];
                    assert(m.states[k].0 == m.widgets[i as int]);
                } else {
                    assert(!has_key(m.states, m.widgets[i as int])) by {
                        if has_key(m.states, m.widgets[i as int]) {
                            let k = choose|k: int|
                                0 <= k < m.states.len() && (#[trigger] m.states[k]).0
                                    == m.widgets[i as int];
                            assert(keys@[k] == m.widgets[i as int]);
                        }
                    }
                }
            }
            if !present {
                return false;
            }
            i += 1;
        }
        let kn = keys.len();
        let mut k: usize = 0;
        while k < kn
            invariant
                k <= kn,
                kn == keys@.len(),
                m == win_model(*self, *data),
                keys@.len() == m.states.len(),
                forall|j: int| 0 <= j < keys@.len() ==> keys@[j] == (#[trigger] m.states[j]).0,
                forall|j: int| 0 <= j < k ==> m.widgets.contains((#[trigger] m.states[j]).0),
            decreases kn - k,
        {
            if !contains_id(&self.tabs, keys[k]) {
                proof {
                    assert(m.states[k as int].0 == keys@[k as int]);
                    assert(!m.widgets.contains(m.states[k as int].0));
                }
                return false;
            }
            k += 1;
        }
        let mut i: usize = 0;
        while i < n
            invariant
                i <= n,
                n == self.tabs@.len(),
                m == win_model(*self, *data),
                forall|k: int| 0 <= k < i ==> #[trigger] m.widgets[k] < m.next_id,
            decreases n - i,
        {
            if self.tabs[i] >= data.next_id {
                return false;
            }
            i += 1;
        }
        true
    }
}

} // verus!
