//! Search tasks by description and/or priority.

use vstd::prelude::*;

use crate::handler::info_views;
use crate::handler::infos_of;
use crate::handler::normalize_filter;
use crate::handler::normalized;
use crate::handler::parse_priority;
use crate::handler::select;
use crate::handler::selected;
use crate::handler::text_view;
use crate::handler::tools::TaskInfo;
use crate::handler::Error;
use crate::priority::priority_of;
use crate::store::Store;

verus! {

/// What a request to search for tasks gives.
#[derive(Debug, Clone, PartialEq, Eq)]
pub struct SearchTasksParams {
    /// A text that the description is to hold.
    pub query: Option<String>,
    /// The level of the priority that the tasks are to have.
    pub priority: Option<u8>,
}

/// Finds the tasks of `store` whose description holds the query, whatever
/// the case of the letters, and that have the priority asked for. They come
/// in the order of the store.
pub fn handle(store: &Store, params: SearchTasksParams) -> (found: Result<Vec<TaskInfo>, Error>)
    ensures
        match priority_of(params.priority) {
            Ok(priority) => found matches Ok(infos) && info_views(infos@) == infos_of(
                selected(store@, normalized(text_view(params.query)), false, priority),
            ),
            Err(e) => found matches Err(err) && err == Error::InvalidPriority(e),
        },
{
    let priority = match parse_priority(params.priority) {
        Ok(priority) => priority,
        Err(e) => {
            return Err(e);
        },
    };
    let query = normalize_filter(params.query.as_ref());
    Ok(select(store, &query, false, priority))
}

} // verus!
