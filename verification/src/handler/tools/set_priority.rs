//! Set the priority of a task.

use vstd::prelude::*;

use crate::handler::find_mut;
use crate::handler::parse_priority;
use crate::handler::Error;
use crate::priority::priority_of;
use crate::priority::Priority;
use crate::store::has_id;
use crate::store::index_of;
use crate::store::OpenTaskView;
use crate::store::Store;

verus! {

/// What a request to set a priority gives.
#[derive(Debug, Clone, Copy, PartialEq, Eq)]
pub struct SetPriorityParams {
    /// The identifier of the task.
    pub id: usize,
    /// The level of the new priority. None clears the priority.
    pub priority: Option<u8>,
}

/// Sets the priority of the task with the given identifier, or clears it,
/// and returns what it was set to. The other tasks stay as they are.
///
/// A priority that is none of the levels is turned down before the task is
/// looked for.
pub fn handle(store: &mut Store, params: SetPriorityParams) -> (set: Result<
    Option<Priority>,
    Error,
>)
    ensures
        match priority_of(params.priority) {
            Ok(priority) => if has_id(old(store)@, params.id) {
                &&& set == Ok::<Option<Priority>, Error>(priority)
                &&& final(store)@ == old(store)@.update(
                    index_of(old(store)@, params.id),
                    OpenTaskView {
                        id: params.id,
                        task: old(store)@[index_of(old(store)@, params.id)].task.set_priority(
                            priority,
                        ),
                    },
                )
            } else {
                &&& set == Err::<Option<Priority>, Error>(Error::NotFound(params.id))
                &&& final(store)@ == old(store)@
            },
            Err(e) => set == Err::<Option<Priority>, Error>(Error::InvalidPriority(e)) && final(store)@ == old(store)@,
        },
{
    let priority = match parse_priority(params.priority) {
        Ok(priority) => priority,
        Err(e) => {
            return Err(e);
        },
    };
    match find_mut(store, params.id) {
        Ok(task) => {
            task.set_priority(priority);
            Ok(priority)
        },
        Err(e) => Err(e),
    }
}

} // verus!
