//! Messages exchanged with the shell's other background services.
use vstd::prelude::*;

verus! {

/// A change that the window manager reports.
#[derive(Debug, Clone)]
pub enum HyprlandMsg {
    WorkspaceChanged { monitor_name: String, workspace_id: i32 },
    WorkspaceCreated { workspace_id: i32, monitor_name: String },
    WorkspaceDestroyed { workspace_id: i32 },
    WorkspaceMoved { workspace_id: i32, monitor_name: String },
    ActiveWindowChanged { title: String },
    MonitorFocusChanged { monitor_name: String, workspace_id: i32 },
}

/// A request to the calendar service.
pub enum CalendarThreadMsg {
    TriggerAuth,
}

/// A notification event to report back on the notification bus.
#[derive(Debug)]
pub enum DaemonCommand {
    NotificationClosed { id: u32, reason: u32 },
    ActionInvoked { id: u32, action_key: String },
}

/// A request to the notification summary service.
pub enum SummaryThreadMsg {
    ManualRefresh,
    NewNotification(u32),
}

/// What the notification summary service reports.
#[derive(Debug, Clone)]
pub enum SummaryResult {
    Updated(String),
    Loading,
    Error(String),
    NoApiKey,
}

} // verus!
