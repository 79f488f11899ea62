//! Get a specific task by ID.

use vstd::prelude::*;

use crate::handler::info_of;
use crate::handler::to_task_info;
use crate::handler::tools::TaskInfo;
use crate::handler::Error;
use crate::store::has_id;
use crate::store::index_of;
use crate::store::Store;

verus! {

/// What a request to show a task gives.
#[derive(Debug, Clone, Copy, PartialEq, Eq)]
pub struct GetTaskParams {
    /// The identifier of the task.
    pub id: usize,
}

/// Shows the task with the given identifier.
pub fn handle(store: &Store, params: GetTaskParams) -> (shown: Result<TaskInfo, Error>)
    ensures
        match shown {
            Ok(info) => has_id(store@, params.id) && info@ == info_of(
                store@[index_of(store@, params.id)],
            ),
            Err(e) => e == Error::NotFound(params.id) && !has_id(store@, params.id),
        },
{
    match store.get(params.id) {
        Some(task) => Ok(to_task_info(task)),
        None => Err(Error::NotFound(params.id)),
    }
}

} // verus!
