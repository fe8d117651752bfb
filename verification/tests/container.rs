//! End-to-end scenarios for the tab container: opening, closing and
//! cycling tabs, event routing, layout and the paint plan.

use lapce_window::data::LapceWindowData;
use lapce_window::ui::{Command, Event, EventCtx, LayoutCtx, LifeCycleCtx, PaintOp, Point, Size,
    Target, UpdateCtx};
use lapce_window::window::LapceWindowNew;
use lapce_window::workspace::{LapceWorkspace, LapceWorkspaceType};

fn local_ws(path: &str) -> LapceWorkspace {
    LapceWorkspace { kind: LapceWorkspaceType::Local, path: path.to_string() }
}

fn remote_ws(path: &str, user: &str, host: &str) -> LapceWorkspace {
    LapceWorkspace {
        kind: LapceWorkspaceType::RemoteSSH(user.to_string(), host.to_string()),
        path: path.to_string(),
    }
}

/// A window with `extra` tabs opened after the initial one, none replaced:
/// identifiers 0..=extra, active at the last.
fn window_with_tabs(extra: usize) -> (LapceWindowNew, LapceWindowData) {
    let mut data = LapceWindowData::new();
    let mut window = LapceWindowNew::new(&data);
    for _ in 0..extra {
        let mut ctx = EventCtx::new();
        let stopped = window.new_tab(&mut ctx, &mut data, None, false);
        assert_eq!(stopped, None);
    }
    (window, data)
}

#[test]
fn construct_from_initial_state() {
    let data = LapceWindowData::new();
    let window = LapceWindowNew::new(&data);
    assert_eq!(window.tabs, vec![0]);
    assert_eq!(data.active, 0);
    assert_eq!(data.active_id, 0);
}

#[test]
fn close_tab_single_is_noop() {
    let (mut window, mut data) = window_with_tabs(0);
    let mut ctx = EventCtx::new();
    let stopped = window.close_tab(&mut ctx, &mut data);
    assert_eq!(stopped, None);
    assert_eq!(window.tabs, vec![0]);
    assert_eq!(data.active, 0);
    assert_eq!(data.active_id, 0);
    assert_eq!(data.tabs.len(), 1);
    assert!(ctx.commands.is_empty());
    assert!(!ctx.handled);
    assert!(!ctx.layout_requested);
    assert!(!ctx.children_changed);
}

#[test]
fn new_tab_insert_grows_by_one_after_active() {
    let (mut window, mut data) = window_with_tabs(0);
    let mut ctx = EventCtx::new();
    let stopped = window.new_tab(&mut ctx, &mut data, None, false);
    assert_eq!(stopped, None);
    assert_eq!(window.tabs, vec![0, 1]);
    assert_eq!(data.active, 1);
    assert_eq!(data.active_id, 1);
    assert_eq!(data.tabs.len(), 2);
    assert_eq!(ctx.commands, vec![(Command::FocusTab, Target::Auto)]);
    assert!(ctx.handled);
    assert!(ctx.layout_requested);
    assert!(ctx.children_changed);
}

#[test]
fn new_tab_insert_lands_between_existing_tabs() {
    let (mut window, mut data) = window_with_tabs(2);
    // Make the first tab active, then insert: the new tab goes right after it.
    data.active = 0;
    data.active_id = 0;
    let mut ctx = EventCtx::new();
    window.new_tab(&mut ctx, &mut data, None, false);
    assert_eq!(window.tabs, vec![0, 3, 1, 2]);
    assert_eq!(data.active, 1);
    assert_eq!(data.active_id, 3);
}

#[test]
fn new_tab_replace_keeps_count_and_index_stops_old_handle() {
    let (mut window, mut data) = window_with_tabs(0);
    let mut ctx = EventCtx::new();
    let stopped = window.new_tab(&mut ctx, &mut data, Some(local_ws("/home/u/proj")), true);
    assert_eq!(stopped, Some(0));
    assert_eq!(window.tabs, vec![1]);
    assert_eq!(data.active, 0);
    assert_eq!(data.active_id, 1);
    assert_eq!(data.tabs.len(), 1);
    assert_eq!(ctx.commands, vec![(Command::FocusTab, Target::Auto)]);
    assert!(ctx.handled);
    assert!(ctx.layout_requested);
    assert!(ctx.children_changed);
}

#[test]
fn select_next_and_previous_wrap() {
    let (window, mut data) = window_with_tabs(2);
    assert_eq!(data.active, 2);
    let mut ctx = EventCtx::new();
    window.next_tab(&mut ctx, &mut data);
    assert_eq!(data.active, 0);
    assert_eq!(data.active_id, 0);
    let mut ctx = EventCtx::new();
    window.previous_tab(&mut ctx, &mut data);
    assert_eq!(data.active, 2);
    assert_eq!(data.active_id, 2);
    assert_eq!(ctx.commands, vec![(Command::FocusTab, Target::Auto)]);
    assert!(ctx.handled);
    assert!(ctx.layout_requested);
}

#[test]
fn select_next_without_wrap() {
    let (window, mut data) = window_with_tabs(2);
    data.active = 0;
    data.active_id = 0;
    let mut ctx = EventCtx::new();
    window.next_tab(&mut ctx, &mut data);
    assert_eq!(data.active, 1);
    assert_eq!(data.active_id, 1);
}

#[test]
fn close_last_indexed_tab_clamps_active() {
    let (mut window, mut data) = window_with_tabs(2);
    assert_eq!(data.active, 2);
    let mut ctx = EventCtx::new();
    let stopped = window.close_tab(&mut ctx, &mut data);
    assert_eq!(stopped, Some(2));
    assert_eq!(window.tabs, vec![0, 1]);
    assert_eq!(data.active, 1);
}

#[test]
fn close_active_last_tab_scenario() {
    // Tabs A, B, C at indices 0, 1, 2, C active.  After CloseTab: tabs
    // [A, B], active index 1, active identifier B's, C's handle stopped
    // exactly once.
    let (mut window, mut data) = window_with_tabs(2);
    let mut ctx = EventCtx::new();
    let stopped = window.close_tab(&mut ctx, &mut data);
    assert_eq!(window.tabs, vec![0, 1]);
    assert_eq!(data.active, 1);
    assert_eq!(data.active_id, 1);
    assert_eq!(stopped, Some(2));
    assert_eq!(data.tabs.len(), 2);
    assert!(data.tabs.get(2).is_none());
}

#[test]
fn close_middle_tab_keeps_index_resyncs_id() {
    let (mut window, mut data) = window_with_tabs(2);
    data.active = 1;
    data.active_id = 1;
    let mut ctx = EventCtx::new();
    let stopped = window.close_tab(&mut ctx, &mut data);
    assert_eq!(stopped, Some(1));
    assert_eq!(window.tabs, vec![0, 2]);
    assert_eq!(data.active, 1);
    assert_eq!(data.active_id, 2);
}

#[test]
fn event_set_workspace_replaces_current() {
    let (mut window, mut data) = window_with_tabs(0);
    let mut ctx = EventCtx::new();
    let stopped = window.event(
        &mut ctx,
        Event::Command(Command::SetWorkspace(local_ws("/home/u/proj"))),
        &mut data,
    );
    assert_eq!(stopped, Some(0));
    assert_eq!(window.tabs, vec![1]);
    assert_eq!(data.active, 0);
    assert_eq!(data.active_id, 1);
    assert!(ctx.handled);
    assert!(ctx.delivered.is_empty());
}

#[test]
fn event_new_and_close_are_consumed() {
    let (mut window, mut data) = window_with_tabs(0);
    let mut ctx = EventCtx::new();
    let stopped = window.event(&mut ctx, Event::Command(Command::NewTab), &mut data);
    assert_eq!(stopped, None);
    assert_eq!(window.tabs, vec![0, 1]);
    assert!(ctx.delivered.is_empty());
    let mut ctx = EventCtx::new();
    let stopped = window.event(&mut ctx, Event::Command(Command::CloseTab), &mut data);
    assert_eq!(stopped, Some(1));
    assert_eq!(window.tabs, vec![0]);
    assert!(ctx.delivered.is_empty());
}

#[test]
fn event_next_tab_forwards_to_new_active() {
    let (mut window, mut data) = window_with_tabs(1);
    data.active = 0;
    data.active_id = 0;
    let mut ctx = EventCtx::new();
    let stopped = window.event(&mut ctx, Event::Command(Command::NextTab), &mut data);
    assert_eq!(stopped, None);
    assert_eq!(data.active, 1);
    assert_eq!(ctx.delivered, vec![1]);
    assert_eq!(ctx.commands, vec![(Command::FocusTab, Target::Auto)]);
    assert!(ctx.handled);
    assert!(ctx.layout_requested);
}

#[test]
fn event_other_goes_to_active_tab_only() {
    let (mut window, mut data) = window_with_tabs(2);
    let mut ctx = EventCtx::new();
    let stopped = window.event(&mut ctx, Event::Other, &mut data);
    assert_eq!(stopped, None);
    assert_eq!(ctx.delivered, vec![2]);
    assert!(ctx.commands.is_empty());
    assert!(!ctx.handled);
    assert!(!ctx.layout_requested);
    assert!(!ctx.children_changed);
}

#[test]
fn event_unrecognized_command_is_forwarded_unhandled() {
    let (mut window, mut data) = window_with_tabs(1);
    let mut ctx = EventCtx::new();
    let stopped = window.event(&mut ctx, Event::Command(Command::FocusTab), &mut data);
    assert_eq!(stopped, None);
    assert_eq!(ctx.delivered, vec![1]);
    assert!(ctx.commands.is_empty());
    assert!(!ctx.handled);
}

#[test]
fn lifecycle_reaches_every_tab_in_order() {
    let (window, data) = window_with_tabs(2);
    let mut ctx = LifeCycleCtx::new();
    window.lifecycle(&mut ctx, &data);
    assert_eq!(ctx.delivered, vec![0, 1, 2]);
}

#[test]
fn update_requests_layout_only_on_change() {
    let (window, data) = window_with_tabs(1);
    // Nothing changed: no layout pass, update still reaches the active tab.
    let mut ctx = UpdateCtx::new();
    window.update(&mut ctx, &data, &data);
    assert!(!ctx.layout_requested);
    assert_eq!(ctx.delivered, vec![1]);
    // The active tab's workspace binding changed: layout pass requested.
    let old_data = LapceWindowData::new();
    let mut new_data = LapceWindowData::new();
    let old_window = LapceWindowNew::new(&old_data);
    let mut ctx = EventCtx::new();
    let mut replaced = LapceWindowNew::new(&new_data);
    replaced.event(
        &mut ctx,
        Event::Command(Command::SetWorkspace(local_ws("/home/u/proj"))),
        &mut new_data,
    );
    // Hold the container shape fixed: compare the same active index.
    new_data.active = 0;
    let mut ctx = UpdateCtx::new();
    old_window.update(&mut ctx, &old_data, &new_data);
    assert!(ctx.layout_requested);
    // The active index changed: layout pass requested.
    let (window3, mut data3) = window_with_tabs(1);
    let mut moved = LapceWindowData::new();
    moved.active = 0;
    data3.active = 1;
    let mut ctx = UpdateCtx::new();
    window3.update(&mut ctx, &moved, &data3);
    assert!(ctx.layout_requested);
}

#[test]
fn layout_single_tab_fills_whole_area() {
    let (window, data) = window_with_tabs(0);
    let mut ctx = LayoutCtx::new();
    let size = window.layout(&mut ctx, Size { width: 800, height: 600 }, &data);
    assert_eq!(size, Size { width: 800, height: 600 });
    assert_eq!(
        ctx.child_layouts,
        vec![(0, Size { width: 800, height: 600 }, Point { x: 0, y: 0 })]
    );
    assert_eq!(
        ctx.commands,
        vec![(Command::UpdateWindowOrigin, Target::Widget(0))]
    );
}

#[test]
fn layout_reserves_strip_above_active_tab() {
    let (window, data) = window_with_tabs(1);
    let mut ctx = LayoutCtx::new();
    let size = window.layout(&mut ctx, Size { width: 800, height: 600 }, &data);
    assert_eq!(size, Size { width: 800, height: 600 });
    assert_eq!(
        ctx.child_layouts,
        vec![(1, Size { width: 800, height: 575 }, Point { x: 0, y: 25 })]
    );
    assert_eq!(
        ctx.commands,
        vec![(Command::UpdateWindowOrigin, Target::Widget(1))]
    );
}

#[test]
fn paint_single_tab_draws_no_strip() {
    let (window, data) = window_with_tabs(0);
    let ops = window.paint(&data);
    assert_eq!(ops, vec![PaintOp::TabContent { id: 0 }]);
}

#[test]
fn paint_two_tabs_draws_strip_sections_and_overlay() {
    let (window, data) = window_with_tabs(1);
    let ops = window.paint(&data);
    assert_eq!(
        ops,
        vec![
            PaintOp::StripBackground,
            PaintOp::SectionLabel { index: 0 },
            PaintOp::ActiveSectionFill { index: 1 },
            PaintOp::SectionLabel { index: 1 },
            PaintOp::SectionDivider { index: 1 },
            PaintOp::TabContent { id: 1 },
            PaintOp::ActiveSectionFill { index: 1 },
            PaintOp::SectionLabel { index: 1 },
            PaintOp::StripBottomBorder,
        ]
    );
}

#[test]
fn strip_labels_for_local_and_remote_workspaces() {
    // Tab 0 bound to the local path /home/u/proj, tab 1 to the same path
    // on a remote host: labels "proj" and "proj [bob@dev1]".
    let (mut window, mut data) = window_with_tabs(0);
    let mut ctx = EventCtx::new();
    window.event(
        &mut ctx,
        Event::Command(Command::SetWorkspace(local_ws("/home/u/proj"))),
        &mut data,
    );
    let mut ctx = EventCtx::new();
    window.new_tab(
        &mut ctx,
        &mut data,
        Some(remote_ws("/home/u/proj", "bob", "dev1")),
        false,
    );
    data.active = 0;
    data.active_id = window.tabs[0];
    let labels = window.tab_labels(&data);
    assert_eq!(labels, vec!["proj".to_string(), "proj [bob@dev1]".to_string()]);
}

#[test]
fn consistency_check_accepts_valid_and_rejects_broken_state() {
    let (window, mut data) = window_with_tabs(2);
    assert!(window.check_wf(&data));
    data.active = 7;
    assert!(!window.check_wf(&data));
    data.active = 2;
    assert!(window.check_wf(&data));
    data.active_id = 99;
    assert!(!window.check_wf(&data));
    data.active_id = 2;
    data.next_id = 1;
    assert!(!window.check_wf(&data));
}

#[test]
fn open_close_sequence_keeps_active_index_valid() {
    let (mut window, mut data) = window_with_tabs(0);
    let steps: Vec<Event> = vec![
        Event::Command(Command::NewTab),
        Event::Command(Command::NewTab),
        Event::Command(Command::CloseTab),
        Event::Command(Command::NewTab),
        Event::Command(Command::CloseTab),
        Event::Command(Command::CloseTab),
        Event::Command(Command::CloseTab),
        Event::Command(Command::CloseTab),
    ];
    for step in steps {
        let mut ctx = EventCtx::new();
        window.event(&mut ctx, step, &mut data);
        assert!(data.active < window.tabs.len());
        assert_eq!(data.active_id, window.tabs[data.active]);
        assert_eq!(data.tabs.len(), window.tabs.len());
        assert!(window.tabs.len() >= 1);
    }
}
