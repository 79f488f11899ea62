//! Stored tasks as flat records: one record for each line of the tasks
//! file, with the identifier and the task's own fields side by side.

use vstd::prelude::*;

use crate::priority::level_of;
use crate::priority::priority_of;
use crate::priority::Priority;
use crate::store::distinct_ids;
use crate::store::occurs_twice;
use crate::store::views;
use crate::store::Error;
use crate::store::OpenTask;
use crate::store::OpenTaskView;
use crate::store::Store;
use crate::task::Task;
use crate::task::TaskView;
use crate::time::Timestamp;

verus! {

/// One stored task. The optional fields are left out of the file where they
/// are `None`, and the priority is stored as its level.
#[derive(Debug, PartialEq, Eq)]
pub struct Record {
    /// The identifier under which the store holds the task.
    pub id: usize,
    /// The identity token of the task.
    pub uuid: u128,
    /// When the task was created.
    pub created: Timestamp,
    /// The description.
    pub description: String,
    /// When the task was completed, if it is.
    pub completed: Option<Timestamp>,
    /// The level of the priority, if one is set.
    pub priority: Option<u8>,
}

/// What a [`Record`] holds, as a mathematical value.
pub struct RecordView {
    /// The identifier.
    pub id: usize,
    /// The identity token.
    pub uuid: u128,
    /// The creation time.
    pub created: Timestamp,
    /// The description.
    pub description: Seq<char>,
    /// The completion time.
    pub completed: Option<Timestamp>,
    /// The level of the priority.
    pub priority: Option<u8>,
}

impl View for Record {
    type V = RecordView;

    open spec fn view(&self) -> RecordView {
        RecordView {
            id: self.id,
            uuid: self.uuid,
            created: self.created,
            description: self.description@,
            completed: self.completed,
            priority: self.priority,
        }
    }
}

/// The record that stores `task`.
pub open spec fn record_of(task: OpenTaskView) -> RecordView {
    RecordView {
        id: task.id,
        uuid: task.task.uuid,
        created: task.task.created,
        description: task.task.description,
        completed: task.task.completed,
        priority: level_of(task.task.priority),
    }
}

/// The task that `record` stores, or the error for a record whose priority
/// is no valid level.
pub open spec fn task_of(record: RecordView) -> Result<OpenTaskView, crate::priority::Error<u8>> {
    match priority_of(record.priority) {
        Ok(priority) => Ok(
            OpenTaskView {
                id: record.id,
                task: TaskView {
                    uuid: record.uuid,
                    created: record.created,
                    description: record.description,
                    completed: record.completed,
                    priority,
                },
            },
        ),
        Err(e) => Err(e),
    }
}

/// The views of `records`, in order.
pub open spec fn record_views(records: Seq<Record>) -> Seq<RecordView> {
    Seq::new(records.len(), |i: int| records[i]@)
}

/// The records that store `tasks`, in order.
pub open spec fn records_of(tasks: Seq<OpenTaskView>) -> Seq<RecordView> {
    Seq::new(tasks.len(), |i: int| record_of(tasks[i]))
}

/// Whether every record of `records` stores a task.
pub open spec fn all_decodable(records: Seq<RecordView>) -> bool {
    forall|i: int| 0 <= i < records.len() ==> task_of(#[trigger] records[i]) is Ok
}

/// The tasks that `records` store, in order. It is meant for records that
/// all store a task.
pub open spec fn tasks_of(records: Seq<RecordView>) -> Seq<OpenTaskView> {
    Seq::new(records.len(), |i: int| task_of(records[i])->Ok_0)
}

impl Record {
    /// The record that stores `task`.
    #[must_use]
    pub fn from_open_task(task: &OpenTask) -> (record: Record)
        ensures
            record@ == record_of(task@),
    {
        let inner = task.task();
        let priority = match inner.priority() {
            Some(p) => Some(u8::from(p)),
            None => None,
        };
        Record {
            id: task.id(),
            uuid: inner.uuid(),
            created: inner.created(),
            description: inner.description().clone(),
            completed: inner.completed(),
            priority,
        }
    }

    /// The task that this record stores. A record with a priority that is
    /// none of the levels stores no task: the error hands the level back.
    pub fn to_open_task(&self) -> (task: Result<OpenTask, crate::priority::Error<u8>>)
        ensures
            match task_of(self@) {
                Ok(view) => task matches Ok(t) && t@ == view,
                Err(e) => task == Err::<OpenTask, crate::priority::Error<u8>>(e),
            },
    {
        let priority = match self.priority {
            Some(value) => match Priority::try_from(value) {
                Ok(p) => Some(p),
                Err(e) => {
                    return Err(e);
                },
            },
            None => None,
        };
        let task = Task::from_parts(
            self.uuid,
            self.created,
            self.description.clone(),
            self.completed,
            priority,
        );
        Ok(OpenTask::new(self.id, task))
    }
}

impl Store {
    /// The records that store the tasks of this store, in order.
    #[must_use]
    pub fn to_records(&self) -> (records: Vec<Record>)
        ensures
            record_views(records@) == records_of(self@),
    {
        let tasks = self.as_slice();
        let mut records: Vec<Record> = Vec::new();
        let mut i: usize = 0;
        while i < tasks.len()
            invariant
                i <= tasks.len(),
                views(tasks@) == self@,
                self@.len() == tasks@.len(),
                records@.len() == i,
                record_views(records@) == records_of(self@).subrange(0, i as int),
            decreases tasks.len() - i,
        {
            let record = Record::from_open_task(&tasks[i]);
            let ghost before = record_views(records@);
            assert(views(tasks@)[i as int] == tasks@[i as int]@);
            records.push(record);
            proof {
                let after = record_views(records@);
                let wanted = records_of(self@).subrange(0, i + 1);
                assert forall|k: int| 0 <= k < after.len() implies after[k] == wanted[k] by {
                    if k < i {
                        assert(after[k] == before[k]);
                        assert(before[k] == records_of(self@).subrange(0, i as int)[k]);
                    }
                }
                assert(after =~= wanted);
            }
            i += 1;
        }
        assert(record_views(records@) =~= records_of(self@));
        records
    }

    /// The store that holds the tasks that `records` store, in their order.
    ///
    /// A single record that stores no task fails the whole: the error is
    /// that of the first such record. Records that share an identifier fail
    /// it too.
    pub fn from_records(records: &Vec<Record>) -> (store: Result<Store, Error>)
        ensures
            store is Ok <==> all_decodable(record_views(records@)) && distinct_ids(
                tasks_of(record_views(records@)),
            ),
            store matches Ok(s) ==> s@ == tasks_of(record_views(records@)),
            store matches Err(Error::InvalidPriority(e)) ==> exists|i: int|
                0 <= i < records@.len() && task_of(#[trigger] record_views(records@)[i]) == Err::<
                    OpenTaskView,
                    crate::priority::Error<u8>,
                >(e) && all_decodable(record_views(records@).subrange(0, i)),
            store matches Err(Error::DuplicateId(id)) ==> all_decodable(record_views(records@))
                && occurs_twice(tasks_of(record_views(records@)), id),
    {
        let ghost stored = record_views(records@);
        let mut open_tasks: Vec<OpenTask> = Vec::new();
        let mut i: usize = 0;
        while i < records.len()
            invariant
                i <= records.len(),
                stored == record_views(records@),
                stored.len() == records@.len(),
                open_tasks@.len() == i,
                all_decodable(stored.subrange(0, i as int)),
                views(open_tasks@) == tasks_of(stored).subrange(0, i as int),
            decreases records.len() - i,
        {
            assert(stored[i as int] == records@[i as int]@);
            match records[i].to_open_task() {
                Ok(task) => {
                    let ghost before = views(open_tasks@);
                    open_tasks.push(task);
                    proof {
                        let after = views(open_tasks@);
                        let wanted = tasks_of(stored).subrange(0, i + 1);
                        assert forall|k: int| 0 <= k < after.len() implies after[k]
                            == wanted[k] by {
                            if k < i {
                                assert(after[k] == before[k]);
                                assert(before[k] == tasks_of(stored).subrange(0, i as int)[k]);
                            }
                        }
                        assert(after =~= wanted);
                    }
                    assert forall|k: int| 0 <= k < i + 1 implies task_of(
                        #[trigger] stored.subrange(0, i + 1)[k],
                    ) is Ok by {
                        if k < i {
                            assert(stored.subrange(0, i as int)[k] == stored[k]);
                        }
                    }
                },
                Err(e) => {
                    assert(!all_decodable(stored));
                    return Err(Error::InvalidPriority(e));
                },
            }
            i += 1;
        }
        assert(stored.subrange(0, i as int) =~= stored);
        assert(views(open_tasks@) =~= tasks_of(stored));
        Store::from_open_tasks(open_tasks)
    }
}

/// A task that is stored and read again is the same task.
pub proof fn lemma_record_round_trip(task: OpenTaskView)
    ensures
        task_of(record_of(task)) == Ok::<OpenTaskView, crate::priority::Error<u8>>(task),
{
    lemma_level_round_trip(task.task.priority);
}

/// A priority that is stored as its level and read again is the same
/// priority, and so is the lack of one.
pub proof fn lemma_level_round_trip(priority: Option<Priority>)
    ensures
        priority_of(level_of(priority)) == Ok::<Option<Priority>, crate::priority::Error<u8>>(
            priority,
        ),
{
}

/// The tasks of a store that are stored and read again are the same tasks
/// in the same order, and they make a store again.
pub proof fn lemma_store_round_trip(tasks: Seq<OpenTaskView>)
    requires
        distinct_ids(tasks),
    ensures
        all_decodable(records_of(tasks)),
        tasks_of(records_of(tasks)) == tasks,
        distinct_ids(tasks_of(records_of(tasks))),
{
    assert forall|i: int| 0 <= i < tasks.len() implies task_of(#[trigger] records_of(tasks)[i])
        == Ok::<OpenTaskView, crate::priority::Error<u8>>(tasks[i]) by {
        lemma_record_round_trip(tasks[i]);
    }
    assert(tasks_of(records_of(tasks)) =~= tasks);
}

} // verus!
