//! Tab-container core of a desktop code editor's window: an ordered set of
//! editor tabs, exactly one of which is active.  The container opens, closes
//! and cycles tabs, keeps the active index and the active tab identifier in
//! step with one another, decides which child receives each event, and plans
//! the tab-strip chrome that is drawn when more than one tab is open.  The
//! host toolkit performs the actual drawing and runs the background process
//! handle attached to each tab; this crate only decides, and reports which
//! handle must be stopped when a tab goes away.

pub mod data;
pub mod laws;
pub mod model;
pub mod ui;
pub mod window;
pub mod workspace;
