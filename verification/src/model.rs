//! The mathematical model of one window's tab container, and the transition
//! each tab operation makes on it.  The container's executable operations
//! promise exactly these transitions; the laws about sequences of
//! operations are proved over them.

use vstd::prelude::*;
use crate::data::{TabState, has_key, key_index, keys_distinct, remove_key};
use crate::workspace::LapceWorkspace;

verus! {

/// One window's tab container and the window state it works on, as one
/// value: the widget identifiers in strip order, the per-tab state entries
/// in insertion order, the active index, the active identifier, and the
/// identifier allocator's next value.
#[verifier::ext_equal]
pub ghost struct WinModel {
    pub widgets: Seq<u64>,
    pub states: Seq<(u64, TabState)>,
    pub active: int,
    pub active_id: u64,
    pub next_id: u64,
}

/// The container's invariant: at least one tab; as many state entries as
/// widgets; the active index valid; the active identifier the one at the
/// active index; widget identifiers and state keys unique; the same
/// identifiers on both sides; and every identifier below the allocator's
/// next value, so a fresh identifier collides with none.
pub open spec fn wf(m: WinModel) -> bool {
    &&& m.widgets.len() >= 1
    &&& m.states.len() == m.widgets.len()
    &&& 0 <= m.active < m.widgets.len()
    &&& m.active_id == m.widgets[m.active]
    &&& m.widgets.no_duplicates()
    &&& keys_distinct(m.states)
    &&& forall|i: int| 0 <= i < m.widgets.len() ==> has_key(m.states, #[trigger] m.widgets[i])
    &&& forall|k: int| 0 <= k < m.states.len() ==> m.widgets.contains((#[trigger] m.states[k]).0)
    &&& forall|i: int| 0 <= i < m.widgets.len() ==> #[trigger] m.widgets[i] < m.next_id
}

/// Opening a tab, and the identifier whose background handle must be
/// stopped as a result (the replaced tab's, when replacing).  A fresh
/// identifier is allocated and fresh state, carrying the given workspace
/// binding, is appended.  Replacing puts the new widget at the active index
/// and drops the previously active tab's state; inserting puts it right
/// after the active index and advances the active index onto it.  Either
/// way the new tab becomes the active one.  When the identifier space is
/// exhausted nothing changes.
pub open spec fn open_tab_model(m: WinModel, ws: Option<LapceWorkspace>, replace: bool) -> (
    WinModel,
    Option<u64>,
) {
    if m.next_id == u64::MAX {
        (m, None)
    } else {
        let id = m.next_id;
        let states1 = m.states.push((id, TabState { workspace: ws }));
        if replace {
            let stopped = if has_key(states1, m.active_id) {
                Some(m.active_id)
            } else {
                None
            };
            (
                WinModel {
                    widgets: m.widgets.update(m.active, id),
                    states: remove_key(states1, m.active_id),
                    active: m.active,
                    active_id: id,
                    next_id: (m.next_id + 1) as u64,
                },
                stopped,
            )
        } else {
            (
                WinModel {
                    widgets: m.widgets.insert(m.active + 1, id),
                    states: states1,
                    active: m.active + 1,
                    active_id: id,
                    next_id: (m.next_id + 1) as u64,
                },
                None,
            )
        }
    }
}

/// Closing the active tab, and the identifier whose background handle must
/// be stopped.  With exactly one tab open nothing changes.  Otherwise the
/// widget at the active index and the state keyed by the active identifier
/// go away; the active index is clamped to the new last index when it fell
/// off the end, and the active identifier is resynchronized to the widget
/// now at the active index.
pub open spec fn close_tab_model(m: WinModel) -> (WinModel, Option<u64>) {
    if m.states.len() == 1 {
        (m, None)
    } else {
        let widgets1 = m.widgets.remove(m.active);
        let stopped = if has_key(m.states, m.active_id) {
            Some(m.active_id)
        } else {
            None
        };
        let active1 = if m.active >= widgets1.len() {
            widgets1.len() - 1
        } else {
            m.active
        };
        (
            WinModel {
                widgets: widgets1,
                states: remove_key(m.states, m.active_id),
                active: active1,
                active_id: widgets1[active1],
                next_id: m.next_id,
            },
            stopped,
        )
    }
}

/// Advancing the active index circularly, wrapping from the last tab to
/// the first, and resynchronizing the active identifier.
pub open spec fn next_tab_model(m: WinModel) -> WinModel {
    let new_index = if m.active >= m.widgets.len() - 1 {
        0
    } else {
        m.active + 1
    };
    WinModel {
        widgets: m.widgets,
        states: m.states,
        active: new_index,
        active_id: m.widgets[new_index],
        next_id: m.next_id,
    }
}

/// Retreating the active index circularly, wrapping from the first tab to
/// the last, and resynchronizing the active identifier.
pub open spec fn prev_tab_model(m: WinModel) -> WinModel {
    let new_index = if m.active == 0 {
        m.widgets.len() - 1
    } else {
        m.active - 1
    };
    WinModel {
        widgets: m.widgets,
        states: m.states,
        active: new_index,
        active_id: m.widgets[new_index],
        next_id: m.next_id,
    }
}

/// The workspace binding of the tab at strip position `i`.
pub open spec fn workspace_at(m: WinModel, i: int) -> Option<LapceWorkspace> {
    m.states[key_index(m.states, m.widgets[i])].1.workspace
}

/// One container operation, for stating laws about operation sequences.
pub enum TabOp {
    Open(Option<LapceWorkspace>, bool),
    Close,
}

/// The state after one operation.
pub open spec fn apply_op(m: WinModel, op: TabOp) -> WinModel {
    match op {
        TabOp::Open(ws, replace) => open_tab_model(m, ws, replace).0,
        TabOp::Close => close_tab_model(m).0,
    }
}

/// The state after a sequence of operations, applied left to right.
pub open spec fn apply_ops(m: WinModel, ops: Seq<TabOp>) -> WinModel
    decreases ops.len(),
{
    if ops.len() == 0 {
        m
    } else {
        apply_ops(apply_op(m, ops[0]), ops.subrange(1, ops.len() as int))
    }
}

} // verus!
