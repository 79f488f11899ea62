//! The collection of open tasks and the identifiers it hands out.

use vstd::prelude::*;
use vstd::std_specs::iter::IteratorSpec;

use crate::task::Task;
use crate::task::TaskView;

pub mod laws;
pub mod lines;
pub mod paths;
pub mod record;

verus! {

/// A task with an assigned ID for display.
///
/// Wraps a [`Task`] and adds the short identifier under which the store
/// holds it.
#[derive(Debug, PartialEq, Eq)]
pub struct OpenTask {
    id: usize,
    task: Task,
}

/// What an [`OpenTask`] holds, as a mathematical value.
pub struct OpenTaskView {
    /// The identifier.
    pub id: usize,
    /// The task.
    pub task: TaskView,
}

impl View for OpenTask {
    type V = OpenTaskView;

    closed spec fn view(&self) -> OpenTaskView {
        OpenTaskView { id: self.id, task: self.task@ }
    }
}

impl Clone for OpenTask {
    fn clone(&self) -> (copy: Self)
        ensures
            copy@ == self@,
    {
        OpenTask { id: self.id, task: self.task.clone() }
    }
}

impl OpenTask {
    /// The task `task` under the identifier `id`.
    #[must_use]
    pub fn new(id: usize, task: Task) -> (open_task: Self)
        ensures
            open_task@ == (OpenTaskView { id, task: task@ }),
    {
        OpenTask { id, task }
    }

    /// Get the ID of the open task.
    #[must_use]
    pub fn id(&self) -> (id: usize)
        ensures
            id == self@.id,
    {
        self.id
    }

    /// Get a reference to the task.
    #[must_use]
    pub fn task(&self) -> (task: &Task)
        ensures
            task@ == self@.task,
    {
        &self.task
    }

    /// Get a mutable reference to the task. The identifier stays as it is.
    #[must_use]
    pub fn task_mut(&mut self) -> (task: &mut Task)
        ensures
            task@ == old(self)@.task,
            final(self)@ == (OpenTaskView { id: old(self)@.id, task: final(task)@ }),
    {
        &mut self.task
    }

    /// Give up the identifier and keep the task.
    #[must_use]
    pub fn into_task(self) -> (task: Task)
        ensures
            task@ == self@.task,
    {
        self.task
    }
}

/// Whether some task of `tasks` has the identifier `id`.
pub open spec fn has_id(tasks: Seq<OpenTaskView>, id: usize) -> bool {
    exists|i: int| 0 <= i < tasks.len() && (#[trigger] tasks[i]).id == id
}

/// Whether no identifier occurs twice in `tasks`.
pub open spec fn distinct_ids(tasks: Seq<OpenTaskView>) -> bool {
    forall|i: int, j: int|
        0 <= i < j < tasks.len() ==> (#[trigger] tasks[i]).id != (#[trigger] tasks[j]).id
}

/// The position in `tasks` of a task with the identifier `id`. Where the
/// identifiers are distinct there is at most one.
pub open spec fn index_of(tasks: Seq<OpenTaskView>, id: usize) -> int {
    choose|i: int| 0 <= i < tasks.len() && (#[trigger] tasks[i]).id == id
}

/// Whether `id` is the smallest identifier that no task of `tasks` has.
pub open spec fn is_first_missing(tasks: Seq<OpenTaskView>, id: usize) -> bool {
    &&& !has_id(tasks, id)
    &&& forall|k: usize| k < id ==> has_id(tasks, k)
}

/// Whether two tasks of `tasks` have the identifier `id`.
pub open spec fn occurs_twice(tasks: Seq<OpenTaskView>, id: usize) -> bool {
    exists|i: int, j: int|
        0 <= i < j < tasks.len() && (#[trigger] tasks[i]).id == id && (#[trigger] tasks[j]).id
            == id
}

/// Why stored tasks cannot be taken into a [`Store`].
#[derive(Debug, Clone, Copy, PartialEq, Eq)]
pub enum Error {
    /// A stored task holds a priority that is none of the levels.
    InvalidPriority(crate::priority::Error<u8>),
    /// Two stored tasks share this identifier.
    DuplicateId(usize),
}

/// The views of `tasks`, in order.
pub open spec fn views(tasks: Seq<OpenTask>) -> Seq<OpenTaskView> {
    Seq::new(tasks.len(), |i: int| tasks[i]@)
}

/// The identifiers of `tasks`, in order.
pub open spec fn ids_of(tasks: Seq<OpenTaskView>) -> Seq<usize> {
    Seq::new(tasks.len(), |i: int| tasks[i].id)
}

/// Whether `ids` ascends, equal neighbours allowed.
pub open spec fn ascending(ids: Seq<usize>) -> bool {
    forall|i: int, j: int| 0 <= i <= j < ids.len() ==> ids[i] <= ids[j]
}

/// Sorts `ids` with `sort_unstable` of the standard library.
///
/// Trusted: afterwards the vector ascends and holds the same numbers as
/// before, each as often as before.
#[verifier::external_body]
fn sort_ids(ids: &mut Vec<usize>)
    ensures
        ascending(final(ids)@),
        final(ids)@.to_multiset() == old(ids)@.to_multiset(),
{
    ids.sort_unstable();
}

/// A task of `tasks` has the identifier `id` exactly if `id` is among the
/// identifiers of `tasks`.
pub proof fn lemma_has_id_is_membership(tasks: Seq<OpenTaskView>, id: usize)
    ensures
        has_id(tasks, id) <==> ids_of(tasks).contains(id),
{
    let ids = ids_of(tasks);
    if has_id(tasks, id) {
        let i = choose|i: int| 0 <= i < tasks.len() && (#[trigger] tasks[i]).id == id;
        assert(ids[i] == id);
    }
    if ids.contains(id) {
        let i = choose|i: int| 0 <= i < ids.len() && ids[i] == id;
        assert(tasks[i].id == id);
    }
}

/// At most one identifier is the smallest unused one.
pub proof fn lemma_first_missing_unique(tasks: Seq<OpenTaskView>, a: usize, b: usize)
    requires
        is_first_missing(tasks, a),
        is_first_missing(tasks, b),
    ensures
        a == b,
{
    if a < b {
        assert(has_id(tasks, a));
    }
    if b < a {
        assert(has_id(tasks, b));
    }
}

/// In an ascending sequence without repetitions, whose first `upto` numbers
/// are `0, 1, ..`, every later number is at least `upto`.
proof fn lemma_dense_prefix(sorted: Seq<usize>, upto: int)
    requires
        ascending(sorted),
        sorted.no_duplicates(),
        0 <= upto <= sorted.len(),
        forall|j: int| 0 <= j < upto ==> sorted[j] == j,
    ensures
        forall|j: int| upto <= j < sorted.len() ==> sorted[j] >= upto,
{
    assert forall|j: int| upto <= j < sorted.len() implies sorted[j] >= upto by {
        if upto > 0 {
            assert(sorted[upto - 1] == upto - 1);
            assert(sorted[upto - 1] <= sorted[j]);
            assert(sorted[upto - 1] != sorted[j]);
        }
    }
}

/// A collection of [`Tasks`](Task).
///
/// These are represented as [`OpenTasks`](OpenTask), which are simply a
/// wrapper around a [`Task`] that adds a short ID field. The tasks stand in
/// the order in which they were added, and no two of them share an ID.
#[derive(Debug, PartialEq, Eq)]
pub struct Store {
    open_tasks: Vec<OpenTask>,
}

impl View for Store {
    type V = Seq<OpenTaskView>;

    closed spec fn view(&self) -> Seq<OpenTaskView> {
        views(self.open_tasks@)
    }
}

impl Default for Store {
    fn default() -> (store: Self)
        ensures
            store@ == Seq::<OpenTaskView>::empty(),
    {
        Store::new()
    }
}

impl Store {
    #[verifier::type_invariant]
    spec fn well_formed(self) -> bool {
        distinct_ids(views(self.open_tasks@))
    }

    /// Create a new empty [`Store`].
    #[must_use]
    pub fn new() -> (store: Self)
        ensures
            store@ == Seq::<OpenTaskView>::empty(),
    {
        let store = Store { open_tasks: Vec::new() };
        assert(store@ =~= Seq::<OpenTaskView>::empty());
        store
    }

    /// The store that holds `open_tasks` in their order. Where two of them
    /// share an identifier there is no such store, and the error names an
    /// identifier that occurs twice.
    pub fn from_open_tasks(open_tasks: Vec<OpenTask>) -> (store: Result<Self, Error>)
        ensures
            store is Ok <==> distinct_ids(views(open_tasks@)),
            store matches Ok(s) ==> s@ == views(open_tasks@),
            store matches Err(e) ==> e matches Error::DuplicateId(id) && occurs_twice(
                views(open_tasks@),
                id,
            ),
    {
        let ghost all = views(open_tasks@);
        let mut i: usize = 0;
        while i < open_tasks.len()
            invariant
                i <= open_tasks.len(),
                all == views(open_tasks@),
                forall|a: int, b: int|
                    0 <= a < b < all.len() && a < i ==> (#[trigger] all[a]).id != (
                    #[trigger] all[b]).id,
            decreases open_tasks.len() - i,
        {
            let mut j: usize = i + 1;
            while j < open_tasks.len()
                invariant
                    i < j <= open_tasks.len(),
                    all == views(open_tasks@),
                    forall|b: int| i < b < j ==> all[i as int].id != (#[trigger] all[b]).id,
                decreases open_tasks.len() - j,
            {
                if open_tasks[i].id == open_tasks[j].id {
                    assert(all[i as int].id == all[j as int].id);
                    return Err(Error::DuplicateId(open_tasks[i].id));
                }
                j += 1;
            }
            i += 1;
        }
        Ok(Store { open_tasks })
    }

    /// Add a [`Task`] to the [`Store`], at the end.
    ///
    /// Returns the new ID associated with the open [`Task`]: the smallest
    /// one that no task in the store has.
    pub fn push(&mut self, task: Task) -> (id: usize)
        ensures
            is_first_missing(old(self)@, id),
            final(self)@ == old(self)@.push(OpenTaskView { id, task: task@ }),
            distinct_ids(final(self)@),
    {
        proof {
            use_type_invariant(&*self);
        }
        let id = self.first_missing_id();
        let mut open_tasks = self.take();
        let ghost before = views(open_tasks@);
        open_tasks.push(OpenTask { id, task });
        proof {
            let after = views(open_tasks@);
            assert(after =~= before.push(OpenTaskView { id, task: task@ }));
            assert forall|i: int, j: int| 0 <= i < j < after.len() implies (#[trigger] after[i]).id
                != (#[trigger] after[j]).id by {
                if j == before.len() {
                    assert(before[i].id != id);
                } else {
                    assert(before[i].id != before[j].id);
                }
            }
        }
        self.open_tasks = open_tasks;
        id
    }

    /// Delete a task by ID.
    ///
    /// Returns the deleted task if found, otherwise `None`. The tasks that
    /// stay keep their order.
    pub fn delete(&mut self, id: usize) -> (deleted: Option<OpenTask>)
        ensures
            match deleted {
                Some(task) => {
                    &&& has_id(old(self)@, id)
                    &&& task@ == old(self)@[index_of(old(self)@, id)]
                    &&& final(self)@ == old(self)@.remove(index_of(old(self)@, id))
                },
                None => !has_id(old(self)@, id) && final(self)@ == old(self)@,
            },
            distinct_ids(final(self)@),
    {
        proof {
            use_type_invariant(&*self);
        }
        match self.position(id) {
            Some(at) => {
                let mut open_tasks = self.take();
                let ghost before = views(open_tasks@);
                let task = open_tasks.remove(at);
                proof {
                    let after = views(open_tasks@);
                    assert(after =~= before.remove(at as int));
                    assert forall|i: int, j: int| 0 <= i < j < after.len() implies (
                    #[trigger] after[i]).id != (#[trigger] after[j]).id by {
                        let a = if i < at { i } else { i + 1 };
                        let b = if j < at { j } else { j + 1 };
                        assert(after[i] == before[a]);
                        assert(after[j] == before[b]);
                    }
                }
                self.open_tasks = open_tasks;
                Some(task)
            },
            None => None,
        }
    }

    /// Get a task by ID.
    ///
    /// Returns a reference to the task if found, otherwise `None`.
    #[must_use]
    pub fn get(&self, id: usize) -> (found: Option<&OpenTask>)
        ensures
            match found {
                Some(task) => has_id(self@, id) && task@ == self@[index_of(self@, id)],
                None => !has_id(self@, id),
            },
    {
        match self.position(id) {
            Some(at) => Some(&self.open_tasks[at]),
            None => None,
        }
    }

    /// Get a task by ID, to change it.
    ///
    /// Returns a mutable reference to the task if found, otherwise `None`.
    /// The reference reaches the task and not its identifier, so the store
    /// keeps its identifiers whatever is written through it.
    #[must_use]
    pub fn get_mut(&mut self, id: usize) -> (found: Option<&mut Task>)
        ensures
            match found {
                Some(task) => {
                    &&& has_id(old(self)@, id)
                    &&& task@ == old(self)@[index_of(old(self)@, id)].task
                    &&& final(self)@ == old(self)@.update(
                        index_of(old(self)@, id),
                        OpenTaskView { id, task: final(task)@ },
                    )
                },
                None => !has_id(old(self)@, id) && final(self)@ == old(self)@,
            },
            distinct_ids(final(self)@),
    {
        proof {
            use_type_invariant(&*self);
        }
        match self.position(id) {
            Some(at) => Some(slot(&mut self.open_tasks, at)),
            None => None,
        }
    }

    /// Iterate over all tasks in the store, in the order in which they were
    /// added.
    pub fn iter(&self) -> (iter: std::slice::Iter<'_, OpenTask>)
        ensures
            views(iter.remaining().unref()) == self@,
    {
        broadcast use vstd::std_specs::slice::axiom_spec_slice_iter;

        let iter = self.open_tasks.as_slice().iter();
        assert(iter.remaining().unref() =~= self.open_tasks@);
        iter
    }

    /// The tasks in the store, in the order in which they were added.
    #[must_use]
    pub fn as_slice(&self) -> (tasks: &[OpenTask])
        ensures
            views(tasks@) == self@,
            distinct_ids(self@),
    {
        proof {
            use_type_invariant(self);
        }
        self.open_tasks.as_slice()
    }

    /// Returns the number of [`Tasks`](Task) in the [`Store`].
    #[must_use]
    pub fn len(&self) -> (len: usize)
        ensures
            len == self@.len(),
    {
        self.open_tasks.len()
    }

    /// Whether the [`Store`] is empty.
    #[must_use]
    pub fn is_empty(&self) -> (empty: bool)
        ensures
            empty == (self@.len() == 0),
    {
        self.len() == 0
    }

    /// The smallest identifier that no task in the store has.
    ///
    /// The identifiers in use are sorted and then held against `0, 1, 2, ..`:
    /// the first place where the two differ is the answer, and the number of
    /// tasks where they never do.
    #[must_use]
    pub fn first_missing_id(&self) -> (id: usize)
        ensures
            is_first_missing(self@, id),
    {
        proof {
            use_type_invariant(self);
        }
        let ghost tasks = self@;
        let mut ids: Vec<usize> = Vec::new();
        let mut n: usize = 0;
        while n < self.open_tasks.len()
            invariant
                n <= self.open_tasks.len(),
                tasks == views(self.open_tasks@),
                ids@ == ids_of(tasks).subrange(0, n as int),
            decreases self.open_tasks.len() - n,
        {
            ids.push(self.open_tasks[n].id);
            assert(ids@ =~= ids_of(tasks).subrange(0, n + 1));
            n += 1;
        }
        let ghost unsorted = ids@;
        assert(unsorted =~= ids_of(tasks));
        sort_ids(&mut ids);
        let ghost sorted = ids@;
        proof {
            broadcast use vstd::seq_lib::group_to_multiset_ensures;

            assert(unsorted.no_duplicates()) by {
                assert forall|i: int, j: int|
                    0 <= i < unsorted.len() && 0 <= j < unsorted.len() && i != j implies unsorted[i]
                    != unsorted[j] by {
                    if i < j {
                        assert(tasks[i].id != tasks[j].id);
                    } else {
                        assert(tasks[j].id != tasks[i].id);
                    }
                }
            }
            unsorted.lemma_multiset_has_no_duplicates();
            sorted.lemma_multiset_has_no_duplicates_conv();
            assert forall|k: usize| sorted.contains(k) <==> has_id(tasks, k) by {
                lemma_has_id_is_membership(tasks, k);
                assert(sorted.contains(k) <==> sorted.to_multiset().count(k) > 0);
                assert(unsorted.contains(k) <==> unsorted.to_multiset().count(k) > 0);
            }
            assert(sorted.len() == unsorted.len()) by {
                assert(sorted.to_multiset().len() == sorted.len());
                assert(unsorted.to_multiset().len() == unsorted.len());
            }
        }
        let mut idx: usize = 0;
        while idx < ids.len()
            invariant
                idx <= ids.len(),
                ids@ == sorted,
                tasks == self@,
                ascending(sorted),
                sorted.no_duplicates(),
                forall|k: usize| sorted.contains(k) <==> has_id(tasks, k),
                forall|j: int| 0 <= j < idx ==> sorted[j] == j,
            decreases ids.len() - idx,
        {
            if ids[idx] != idx {
                proof {
                    lemma_dense_prefix(sorted, idx as int);
                    assert forall|k: usize| k < idx implies has_id(tasks, k) by {
                        assert(sorted[k as int] == k);
                        assert(sorted.contains(k));
                    }
                    if sorted.contains(idx) {
                        let at = choose|at: int| 0 <= at < sorted.len() && sorted[at] == idx;
                        assert(at > idx);
                        assert(sorted[idx as int] <= sorted[at]);
                        assert(sorted[idx as int] >= idx);
                    }
                    assert(!has_id(tasks, idx));
                }
                return idx;
            }
            idx += 1;
        }
        proof {
            assert forall|k: usize| k < idx implies has_id(tasks, k) by {
                assert(sorted[k as int] == k);
                assert(sorted.contains(k));
            }
            if sorted.contains(idx) {
                let at = choose|at: int| 0 <= at < sorted.len() && sorted[at] == idx;
                assert(sorted[at] == at);
            }
            assert(!has_id(tasks, idx));
        }
        idx
    }

    /// The position of the task with the identifier `id`, found by a scan
    /// from the front.
    fn position(&self, id: usize) -> (at: Option<usize>)
        ensures
            match at {
                Some(i) => {
                    &&& i < self.open_tasks@.len()
                    &&& has_id(self@, id)
                    &&& i == index_of(self@, id)
                },
                None => !has_id(self@, id),
            },
    {
        proof {
            use_type_invariant(self);
        }
        let ghost tasks = self@;
        let mut i: usize = 0;
        while i < self.open_tasks.len()
            invariant
                i <= self.open_tasks.len(),
                tasks == views(self.open_tasks@),
                distinct_ids(tasks),
                forall|j: int| 0 <= j < i ==> (#[trigger] tasks[j]).id != id,
            decreases self.open_tasks.len() - i,
        {
            if self.open_tasks[i].id == id {
                proof {
                    assert(tasks[i as int].id == id);
                    let chosen = index_of(tasks, id);
                    assert(tasks[chosen].id == id);
                    if chosen < i {
                        assert(tasks[chosen].id != tasks[i as int].id);
                    }
                    if i < chosen {
                        assert(tasks[i as int].id != tasks[chosen].id);
                    }
                }
                return Some(i);
            }
            i += 1;
        }
        None
    }

    /// Moves the tasks out and leaves the store empty.
    fn take(&mut self) -> (open_tasks: Vec<OpenTask>)
        ensures
            open_tasks@ == old(self).open_tasks@,
            final(self).open_tasks@ == Seq::<OpenTask>::empty(),
    {
        let mut open_tasks: Vec<OpenTask> = Vec::new();
        core::mem::swap(&mut self.open_tasks, &mut open_tasks);
        open_tasks
    }
}

/// The task in the place `at` of `open_tasks`, to be changed.
fn slot(open_tasks: &mut Vec<OpenTask>, at: usize) -> (task: &mut Task)
    requires
        at < old(open_tasks)@.len(),
    ensures
        task@ == old(open_tasks)@[at as int]@.task,
        views(final(open_tasks)@) == views(old(open_tasks)@).update(
            at as int,
            OpenTaskView { id: old(open_tasks)@[at as int]@.id, task: final(task)@ },
        ),
    no_unwind
{
    &mut open_tasks[at].task
}

impl std::ops::Deref for OpenTask {
    type Target = Task;

    fn deref(&self) -> (task: &Task)
        ensures
            task@ == self@.task,
    {
        &self.task
    }
}

impl<'a> IntoIterator for &'a Store {
    type IntoIter = std::slice::Iter<'a, OpenTask>;

    type Item = &'a OpenTask;

    fn into_iter(self) -> (iter: std::slice::Iter<'a, OpenTask>)
        ensures
            views(iter.remaining().unref()) == self@,
    {
        self.iter()
    }
}

} // verus!
