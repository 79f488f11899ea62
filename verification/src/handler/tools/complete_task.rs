//! Mark a task as completed.

use vstd::prelude::*;

use crate::handler::find_mut;
use crate::handler::Error;
use crate::store::has_id;
use crate::store::index_of;
use crate::store::OpenTaskView;
use crate::store::Store;
use crate::time::Timestamp;

verus! {

/// What a request to complete a task gives.
#[derive(Debug, Clone, Copy, PartialEq, Eq)]
pub struct CompleteTaskParams {
    /// The identifier of the task.
    pub id: usize,
}

/// Marks the task with the given identifier as completed now. A task that
/// is completed already keeps its completion time. The other tasks stay as
/// they are.
pub fn handle(store: &mut Store, params: CompleteTaskParams) -> (done: Result<(), Error>)
    ensures
        match done {
            Ok(_) => {
                &&& has_id(old(store)@, params.id)
                &&& exists|when: Timestamp|
                    final(store)@ == old(store)@.update(
                        index_of(old(store)@, params.id),
                        OpenTaskView {
                            id: params.id,
                            task: old(store)@[index_of(
                                old(store)@,
                                params.id,
                            )].task.mark_completed_at(when),
                        },
                    )
            },
            Err(e) => e == Error::NotFound(params.id) && !has_id(old(store)@, params.id) && final(store)@ == old(store)@,
        },
{
    match find_mut(store, params.id) {
        Ok(task) => {
            let ghost before = task@;
            task.mark_completed();
            let ghost when = choose|when: Timestamp| task@ == before.mark_completed_at(when);
            assert(task@ == before.mark_completed_at(when));
            Ok(())
        },
        Err(e) => Err(e),
    }
}

} // verus!
