//! What holds of the identifiers that a store hands out.

use vstd::prelude::*;

use crate::store::distinct_ids;
use crate::store::has_id;
use crate::store::index_of;
use crate::store::is_first_missing;
use crate::store::OpenTaskView;

verus! {

/// Whether `run` is what a row of pushes leaves in a store that was empty:
/// each task got the smallest identifier that the tasks before it left free.
pub open spec fn is_push_run(run: Seq<OpenTaskView>) -> bool {
    forall|n: int| 0 <= n < run.len() ==> is_first_missing(run.take(n), (#[trigger] run[n]).id)
}

/// Pushes into an empty store hand out the identifiers 0, 1, 2, .. in the
/// order of the pushes.
pub proof fn lemma_pushes_count_from_zero(run: Seq<OpenTaskView>)
    requires
        is_push_run(run),
    ensures
        forall|n: int| 0 <= n < run.len() ==> (#[trigger] run[n]).id == n,
    decreases run.len(),
{
    if run.len() > 0 {
        let last = run.len() - 1;
        let before = run.drop_last();
        assert(before =~= run.take(last));
        assert forall|n: int| 0 <= n < before.len() implies is_first_missing(
            before.take(n),
            (#[trigger] before[n]).id,
        ) by {
            assert(before.take(n) =~= run.take(n));
            assert(before[n] == run[n]);
        }
        lemma_pushes_count_from_zero(before);
        let id = run[last].id;
        assert(is_first_missing(before, id));
        if id < last {
            assert(before[id as int].id == id);
            assert(has_id(before, id));
        }
        if id > last {
            let k = last as usize;
            assert(has_id(before, k));
            let at = choose|i: int| 0 <= i < before.len() && (#[trigger] before[i]).id == k;
            assert(before[at].id == at);
        }
        assert forall|n: int| 0 <= n < run.len() implies (#[trigger] run[n]).id == n by {
            if n < last {
                assert(run[n] == before[n]);
            }
        }
    }
}

/// After the task with the identifier `id` is deleted, `id` is the next
/// identifier to be handed out, provided that every smaller identifier is
/// in use.
pub proof fn lemma_deleted_id_is_reused(tasks: Seq<OpenTaskView>, id: usize)
    requires
        distinct_ids(tasks),
        has_id(tasks, id),
        forall|k: usize| k < id ==> has_id(tasks, k),
    ensures
        is_first_missing(tasks.remove(index_of(tasks, id)), id),
{
    let at = index_of(tasks, id);
    let rest = tasks.remove(at);
    if has_id(rest, id) {
        let i = choose|i: int| 0 <= i < rest.len() && (#[trigger] rest[i]).id == id;
        let j = if i < at { i } else { i + 1 };
        assert(rest[i] == tasks[j]);
        if j < at {
            assert(tasks[j].id != tasks[at].id);
        } else {
            assert(tasks[at].id != tasks[j].id);
        }
    }
    assert(tasks[at].id == id);
    assert forall|k: usize| k < id implies has_id(rest, k) by {
        assert(has_id(tasks, k));
        let j = choose|j: int| 0 <= j < tasks.len() && (#[trigger] tasks[j]).id == k;
        assert(j != at);
        let i = if j < at { j } else { j - 1 };
        assert(rest[i] == tasks[j]);
    }
}

/// If the smallest identifier in use is deleted, and that identifier is 0,
/// then the next push hands out 0 again.
///
/// Where the smallest identifier in use is larger than 0, the next push
/// hands out 0 and not that identifier, deleted or not.
pub proof fn lemma_smallest_id_is_reused(tasks: Seq<OpenTaskView>, id: usize)
    requires
        distinct_ids(tasks),
        has_id(tasks, id),
        forall|i: int| 0 <= i < tasks.len() ==> id <= (#[trigger] tasks[i]).id,
        id == 0,
    ensures
        is_first_missing(tasks.remove(index_of(tasks, id)), id),
{
    lemma_deleted_id_is_reused(tasks, id);
}

/// While identifier 0 is free, it is the next one to be handed out,
/// whatever else is in use.
pub proof fn lemma_zero_comes_first(tasks: Seq<OpenTaskView>)
    requires
        !has_id(tasks, 0),
    ensures
        is_first_missing(tasks, 0),
{
}

/// Where no identifier occurs twice, the task with a given identifier
/// stands in one place and no other.
pub proof fn lemma_index_of_is_the_place(tasks: Seq<OpenTaskView>, id: usize, place: int)
    requires
        distinct_ids(tasks),
        0 <= place < tasks.len(),
        tasks[place].id == id,
    ensures
        has_id(tasks, id),
        index_of(tasks, id) == place,
{
    let chosen = index_of(tasks, id);
    assert(tasks[chosen].id == id);
    if chosen < place {
        assert(tasks[chosen].id != tasks[place].id);
    }
    if place < chosen {
        assert(tasks[place].id != tasks[chosen].id);
    }
}

/// The identifiers of a store stay distinct when a task is added under the
/// smallest free identifier, when a task is removed, and when a task is
/// changed in its place.
pub proof fn lemma_ids_stay_distinct(
    tasks: Seq<OpenTaskView>,
    id: usize,
    added: OpenTaskView,
    place: int,
    changed: OpenTaskView,
)
    requires
        distinct_ids(tasks),
    ensures
        is_first_missing(tasks, id) && added.id == id ==> distinct_ids(tasks.push(added)),
        0 <= place < tasks.len() ==> distinct_ids(tasks.remove(place)),
        0 <= place < tasks.len() && changed.id == tasks[place].id ==> distinct_ids(
            tasks.update(place, changed),
        ),
{
    if is_first_missing(tasks, id) && added.id == id {
        let after = tasks.push(added);
        assert forall|i: int, j: int| 0 <= i < j < after.len() implies (#[trigger] after[i]).id
            != (#[trigger] after[j]).id by {
            if j == tasks.len() {
                assert(tasks[i].id != id);
            } else {
                assert(tasks[i].id != tasks[j].id);
            }
        }
    }
    if 0 <= place < tasks.len() {
        let after = tasks.remove(place);
        assert forall|i: int, j: int| 0 <= i < j < after.len() implies (#[trigger] after[i]).id
            != (#[trigger] after[j]).id by {
            let a = if i < place { i } else { i + 1 };
            let b = if j < place { j } else { j + 1 };
            assert(after[i] == tasks[a]);
            assert(after[j] == tasks[b]);
        }
        if changed.id == tasks[place].id {
            let after = tasks.update(place, changed);
            assert forall|i: int, j: int| 0 <= i < j < after.len() implies (
            #[trigger] after[i]).id != (#[trigger] after[j]).id by {
                assert(after[i].id == tasks[i].id);
                assert(after[j].id == tasks[j].id);
            }
        }
    }
}

} // verus!
