//! The form in which the operations show a task.

use vstd::prelude::*;

verus! {

/// What a front end shows of a task.
#[derive(Debug, Clone, PartialEq, Eq)]
pub struct TaskInfo {
    /// The identifier under which the store holds the task.
    pub id: usize,
    /// The description.
    pub description: String,
    /// The level of the priority, if one is set.
    pub priority: Option<u8>,
    /// The creation time, as text.
    pub created: String,
    /// The completion time, as text, if the task is completed.
    pub completed: Option<String>,
    /// Whether the task is completed.
    pub is_completed: bool,
}

/// What a [`TaskInfo`] holds, as a mathematical value.
pub struct TaskInfoView {
    /// The identifier.
    pub id: usize,
    /// The description.
    pub description: Seq<char>,
    /// The level of the priority.
    pub priority: Option<u8>,
    /// The creation time, as text.
    pub created: Seq<char>,
    /// The completion time, as text.
    pub completed: Option<Seq<char>>,
    /// Whether the task is completed.
    pub is_completed: bool,
}

impl View for TaskInfo {
    type V = TaskInfoView;

    open spec fn view(&self) -> TaskInfoView {
        TaskInfoView {
            id: self.id,
            description: self.description@,
            priority: self.priority,
            created: self.created@,
            completed: match self.completed {
                Some(text) => Some(text@),
                None => None,
            },
            is_completed: self.is_completed,
        }
    }
}

} // verus!
