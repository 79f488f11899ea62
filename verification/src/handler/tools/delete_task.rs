//! Delete a task.

use vstd::prelude::*;

use crate::handler::Error;
use crate::store::has_id;
use crate::store::index_of;
use crate::store::Store;

verus! {

/// What a request to delete a task gives.
#[derive(Debug, Clone, Copy, PartialEq, Eq)]
pub struct DeleteTaskParams {
    /// The identifier of the task.
    pub id: usize,
}

/// Deletes the task with the given identifier. The tasks that stay keep
/// their order, and the identifier is free to be handed out again.
pub fn handle(store: &mut Store, params: DeleteTaskParams) -> (done: Result<(), Error>)
    ensures
        match done {
            Ok(_) => has_id(old(store)@, params.id) && final(store)@ == old(store)@.remove(
                index_of(old(store)@, params.id),
            ),
            Err(e) => e == Error::NotFound(params.id) && !has_id(old(store)@, params.id) && final(store)@ == old(store)@,
        },
{
    match store.delete(params.id) {
        Some(_) => Ok(()),
        None => Err(Error::NotFound(params.id)),
    }
}

} // verus!
