//! Add a new task.

use vstd::prelude::*;

use crate::priority::Priority;
use crate::store::is_first_missing;
use crate::store::Store;
use crate::task::Task;

verus! {

/// Add a new task.
#[derive(Debug)]
pub struct Add {
    /// The description of the task.
    pub description: String,
    /// The priority of the task, if it is to have one.
    pub priority: Option<Priority>,
}

impl Add {
    /// Creates the task and adds it to `store`, at the end. Returns the
    /// identifier that the store gave it: the smallest one that was free.
    pub fn run(self, store: &mut Store) -> (id: usize)
        ensures
            is_first_missing(old(store)@, id),
            final(store)@.len() == old(store)@.len() + 1,
            final(store)@.drop_last() == old(store)@,
            final(store)@.last().id == id,
            final(store)@.last().task.description == self.description@,
            final(store)@.last().task.priority == self.priority,
            final(store)@.last().task.completed is None,
    {
        let mut task = Task::new(self.description);
        if let Some(p) = self.priority {
            task = task.with_priority(p);
        }
        let id = store.push(task);
        assert(store@.drop_last() =~= old(store)@);
        id
    }
}

} // verus!
