//! Create a new task with optional priority.

use vstd::prelude::*;

use crate::handler::parse_priority;
use crate::handler::Error;
use crate::priority::priority_of;
use crate::store::is_first_missing;
use crate::store::Store;
use crate::task::Task;

verus! {

/// What a request to create a task gives.
#[derive(Debug, Clone, PartialEq, Eq)]
pub struct CreateTaskParams {
    /// The description of the new task.
    pub description: String,
    /// The level of its priority, if it is to have one.
    pub priority: Option<u8>,
}

/// Creates a task and adds it to `store`. Returns the identifier that the
/// store gave it.
///
/// A priority that is none of the levels is turned down before anything is
/// created, and the store stays as it is.
pub fn handle(store: &mut Store, params: CreateTaskParams) -> (created: Result<usize, Error>)
    ensures
        match priority_of(params.priority) {
            Ok(priority) => {
                &&& created matches Ok(id)
                &&& is_first_missing(old(store)@, id)
                &&& final(store)@.len() == old(store)@.len() + 1
                &&& final(store)@.drop_last() == old(store)@
                &&& final(store)@.last().id == id
                &&& final(store)@.last().task.description == params.description@
                &&& final(store)@.last().task.priority == priority
                &&& final(store)@.last().task.completed is None
            },
            Err(e) => created == Err::<usize, Error>(Error::InvalidPriority(e)) && final(store)@
                == old(store)@,
        },
{
    let priority = match parse_priority(params.priority) {
        Ok(priority) => priority,
        Err(e) => {
            return Err(e);
        },
    };
    let mut task = Task::new(params.description);
    if let Some(p) = priority {
        task.set_priority(Some(p));
    }
    let id = store.push(task);
    assert(store@.drop_last() =~= old(store)@);
    Ok(id)
}

} // verus!
