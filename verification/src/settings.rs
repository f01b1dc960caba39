//! User settings that shape the reminder popup.
use vstd::prelude::*;

verus! {

/// A task pinned to the quick-switch list (manual mode).
#[derive(Debug, Clone)]
pub struct QuickSwitchItem {
    pub task_id: i64,
    pub task_name: String,
    pub project_id: i64,
    pub project_name: String,
    /// "main" (4 large) or "small" (3 compact)
    pub slot: String,
}

/// The task untracked "private todo" time goes to.
#[derive(Debug, Clone)]
pub struct DefaultTaskConfig {
    pub task_id: i64,
    pub task_name: String,
    pub project_id: i64,
    pub project_name: String,
}

} // verus!
