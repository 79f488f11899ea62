//! The operations, one module each, and the form in which they show a task.

pub mod complete_task;
pub mod create_task;
pub mod delete_task;
pub mod get_task;
pub mod list_tasks;
pub mod search_tasks;
pub mod set_priority;
pub mod types;

pub use types::TaskInfo;
