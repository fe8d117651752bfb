//! The vocabulary the container shares with its host toolkit, as plain
//! values: commands, events, logical geometry, paint operations, and the
//! small context records in which one dispatched call accumulates its
//! effects.  The host owns the real widget tree, render surface and command
//! queue; each context here is the container's account of what the host must
//! do next, which the host reads back after the call.

use vstd::prelude::*;
use crate::workspace::LapceWorkspace;

verus! {

/// Commands the container consumes from or emits to the host toolkit.
/// `SetWorkspace`..`PreviousTab` arrive from the host; `FocusTab` and
/// `UpdateWindowOrigin` are emitted by the container.
#[derive(Debug, PartialEq, Eq)]
pub enum Command {
    SetWorkspace(LapceWorkspace),
    NewTab,
    CloseTab,
    NextTab,
    PreviousTab,
    FocusTab,
    UpdateWindowOrigin,
}

/// Where an emitted command is addressed: broadcast, or one widget.
#[derive(Clone, Copy, Debug, PartialEq, Eq, Structural)]
pub enum Target {
    Auto,
    Widget(u64),
}

/// One event delivered by the host: a recognized command, or any other
/// input event, which the container only routes.
pub enum Event {
    Command(Command),
    Other,
}

/// Effects of one event dispatch: commands submitted (in order, with their
/// targets), the tab widgets the event was forwarded to (in order), and the
/// handled / relayout / children-changed flags.
pub struct EventCtx {
    pub commands: Vec<(Command, Target)>,
    pub delivered: Vec<u64>,
    pub handled: bool,
    pub layout_requested: bool,
    pub children_changed: bool,
}

impl EventCtx {
    /// A fresh context with nothing submitted and every flag clear.
    pub fn new() -> (c: EventCtx)
        ensures
            c.commands@ == Seq::<(Command, Target)>::empty(),
            c.delivered@ == Seq::<u64>::empty(),
            !c.handled,
            !c.layout_requested,
            !c.children_changed,
    {
        EventCtx {
            commands: Vec::new(),
            delivered: Vec::new(),
            handled: false,
            layout_requested: false,
            children_changed: false,
        }
    }
}

/// Effects of one lifecycle dispatch: the tab widgets notified, in order.
pub struct LifeCycleCtx {
    pub delivered: Vec<u64>,
}

impl LifeCycleCtx {
    /// A fresh context with no notifications recorded.
    pub fn new() -> (c: LifeCycleCtx)
        ensures
            c.delivered@ == Seq::<u64>::empty(),
    {
        LifeCycleCtx { delivered: Vec::new() }
    }
}

/// Effects of one data-update dispatch: whether a layout pass was
/// requested, and the tab widgets the update reached, in order.
pub struct UpdateCtx {
    pub layout_requested: bool,
    pub delivered: Vec<u64>,
}

impl UpdateCtx {
    /// A fresh context with no layout requested and nothing delivered.
    pub fn new() -> (c: UpdateCtx)
        ensures
            !c.layout_requested,
            c.delivered@ == Seq::<u64>::empty(),
    {
        UpdateCtx { layout_requested: false, delivered: Vec::new() }
    }
}

/// A size in whole logical units.
#[derive(Clone, Copy, Debug, PartialEq, Eq, Structural)]
pub struct Size {
    pub width: u64,
    pub height: u64,
}

/// A position in whole logical units, measured from the window's top-left.
#[derive(Clone, Copy, Debug, PartialEq, Eq, Structural)]
pub struct Point {
    pub x: u64,
    pub y: u64,
}

/// Effects of one layout pass: each child laid out, with the size it was
/// given and the origin it was placed at, and the commands submitted.
pub struct LayoutCtx {
    pub child_layouts: Vec<(u64, Size, Point)>,
    pub commands: Vec<(Command, Target)>,
}

impl LayoutCtx {
    /// A fresh context with no children placed and nothing submitted.
    pub fn new() -> (c: LayoutCtx)
        ensures
            c.child_layouts@ == Seq::<(u64, Size, Point)>::empty(),
            c.commands@ == Seq::<(Command, Target)>::empty(),
    {
        LayoutCtx { child_layouts: Vec::new(), commands: Vec::new() }
    }
}

/// One drawing step of the tab container, in paint order.  The host turns
/// each into toolkit draw calls; section geometry follows from the window
/// width, the section index and the tab count (equal-width sections), and
/// each step's theme color role is fixed: the strip background uses the
/// inactive-tab color, a section fill the active-tab color, a label the
/// editor-foreground color.
#[derive(Clone, Copy, Debug, PartialEq, Eq, Structural)]
pub enum PaintOp {
    /// Fill of the whole strip row with the inactive-tab color.
    StripBackground,
    /// Fill of one section with the active-tab color.
    ActiveSectionFill { index: usize },
    /// One section's centered label text, in the editor-foreground color.
    SectionLabel { index: usize },
    /// Vertical divider on the left edge of section `index`.
    SectionDivider { index: usize },
    /// The active tab widget paints its own content.
    TabContent { id: u64 },
    /// Horizontal border along the bottom edge of the strip.
    StripBottomBorder,
}

} // verus!
