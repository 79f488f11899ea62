//! List all tasks with optional filters.

use vstd::prelude::*;

use crate::handler::info_views;
use crate::handler::infos_of;
use crate::handler::normalize_filter;
use crate::handler::normalized;
use crate::handler::parse_priority;
use crate::handler::select;
use crate::handler::selected;
use crate::handler::text_view;
use crate::handler::tools::TaskInfo;
use crate::handler::Error;
use crate::priority::priority_of;
use crate::store::Store;

verus! {

/// What a request to list tasks gives.
#[derive(Debug, Clone, PartialEq, Eq)]
pub struct ListTasksParams {
    /// `active`, `completed`, or a text that the description is to hold.
    pub filter: Option<String>,
    /// The level of the priority that the tasks are to have.
    pub priority: Option<u8>,
}

/// Lists the tasks of `store` that pass the filter and have the priority
/// asked for, in the order of the store.
///
/// The filter `active` leaves out the completed tasks and `completed` the
/// others. Every other filter keeps the tasks whose description holds the
/// filter, whatever the case of the letters.
pub fn handle(store: &Store, params: ListTasksParams) -> (listed: Result<Vec<TaskInfo>, Error>)
    ensures
        match priority_of(params.priority) {
            Ok(priority) => listed matches Ok(infos) && info_views(infos@) == infos_of(
                selected(store@, normalized(text_view(params.filter)), true, priority),
            ),
            Err(e) => listed matches Err(err) && err == Error::InvalidPriority(e),
        },
{
    let priority = match parse_priority(params.priority) {
        Ok(priority) => priority,
        Err(e) => {
            return Err(e);
        },
    };
    let filter = normalize_filter(params.filter.as_ref());
    Ok(select(store, &filter, true, priority))
}

} // verus!
