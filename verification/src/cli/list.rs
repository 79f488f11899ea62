//! List all tasks, the most urgent first.

use vstd::prelude::*;
use vstd::set_lib::lemma_int_range;
use vstd::set_lib::lemma_subset_equality;
use vstd::set_lib::set_int_range;

use crate::store::views;
use crate::store::OpenTask;
use crate::store::OpenTaskView;
use crate::store::Store;
use crate::task::Coefficients;
use crate::task::Weight;

verus! {

/// List all tasks.
#[derive(Debug, Default, Clone, Copy)]
pub struct List;

/// One row of the listing.
#[derive(Debug, PartialEq, Eq)]
pub struct Row {
    /// The identifier of the task.
    pub id: usize,
    /// The priority as text, empty for a task without one.
    pub priority: String,
    /// The description.
    pub description: String,
    /// The urgency.
    pub urgency: Weight,
}

/// What a [`Row`] holds, as a mathematical value.
pub struct RowView {
    /// The identifier.
    pub id: usize,
    /// The priority as text.
    pub priority: Seq<char>,
    /// The description.
    pub description: Seq<char>,
    /// The urgency.
    pub urgency: Weight,
}

impl View for Row {
    type V = RowView;

    open spec fn view(&self) -> RowView {
        RowView {
            id: self.id,
            priority: self.priority@,
            description: self.description@,
            urgency: self.urgency,
        }
    }
}

/// The listing: its rows from the top, and whether it has a column for the
/// priority.
#[derive(Debug, PartialEq, Eq)]
pub struct Table {
    /// Whether any task has a priority. Without one the column is left out.
    pub has_priority: bool,
    /// The rows, the most urgent task first.
    pub rows: Vec<Row>,
}

/// The row that shows `task`.
pub open spec fn row_of(task: OpenTaskView, coefficients: Coefficients) -> RowView {
    RowView {
        id: task.id,
        priority: match task.task.priority {
            Some(p) => p.text(),
            None => Seq::empty(),
        },
        description: task.task.description,
        urgency: task.task.urgency(coefficients),
    }
}

/// The integer by which the urgency of `task` is ordered.
pub open spec fn urgency_key(task: OpenTaskView, coefficients: Coefficients) -> int {
    task.task.urgency(coefficients).order_key()
}

/// Whether the task in place `i` of `tasks` is listed before the task in
/// place `j`: the more urgent one comes first, and of two that are equally
/// urgent the one that stands first in `tasks`.
pub open spec fn comes_before(
    tasks: Seq<OpenTaskView>,
    coefficients: Coefficients,
    i: int,
    j: int,
) -> bool {
    urgency_key(tasks[i], coefficients) > urgency_key(tasks[j], coefficients) || (urgency_key(
        tasks[i],
        coefficients,
    ) == urgency_key(tasks[j], coefficients) && i < j)
}

/// Whether `order` names the places of `tasks` in the order of the listing:
/// every entry is a place of `tasks`, there are as many as tasks, and each
/// comes before all that follow it.
pub open spec fn is_urgency_order(
    tasks: Seq<OpenTaskView>,
    coefficients: Coefficients,
    order: Seq<usize>,
) -> bool {
    &&& order.len() == tasks.len()
    &&& forall|a: int| 0 <= a < order.len() ==> order[a] < tasks.len()
    &&& forall|a: int, b: int|
        0 <= a < b < order.len() ==> comes_before(
            tasks,
            coefficients,
            order[a] as int,
            order[b] as int,
        )
}

/// The rows that show the tasks in the places that `order` names.
pub open spec fn rows_in(tasks: Seq<OpenTaskView>, coefficients: Coefficients, order: Seq<usize>)
    -> Seq<RowView> {
    Seq::new(order.len(), |k: int| row_of(tasks[order[k] as int], coefficients))
}

/// The views of `rows`, in order.
pub open spec fn row_views(rows: Seq<Row>) -> Seq<RowView> {
    Seq::new(rows.len(), |k: int| rows[k]@)
}

/// Whether any task of `tasks` has a priority.
pub open spec fn any_priority(tasks: Seq<OpenTaskView>) -> bool {
    exists|i: int| 0 <= i < tasks.len() && (#[trigger] tasks[i]).task.priority is Some
}

/// No place occurs twice in the order of a listing.
pub proof fn lemma_order_has_no_duplicates(
    tasks: Seq<OpenTaskView>,
    coefficients: Coefficients,
    order: Seq<usize>,
)
    requires
        is_urgency_order(tasks, coefficients, order),
    ensures
        order.no_duplicates(),
{
    assert forall|a: int, b: int|
        0 <= a < order.len() && 0 <= b < order.len() && a != b implies order[a] != order[b] by {
        if a < b {
            assert(comes_before(tasks, coefficients, order[a] as int, order[b] as int));
        } else {
            assert(comes_before(tasks, coefficients, order[b] as int, order[a] as int));
        }
    }
}

/// In a listing the urgency never rises from one row to the next.
pub proof fn lemma_urgency_descends(
    tasks: Seq<OpenTaskView>,
    coefficients: Coefficients,
    order: Seq<usize>,
    a: int,
    b: int,
)
    requires
        is_urgency_order(tasks, coefficients, order),
        0 <= a <= b < order.len(),
    ensures
        urgency_key(tasks[order[a] as int], coefficients) >= urgency_key(
            tasks[order[b] as int],
            coefficients,
        ),
{
    if a < b {
        assert(comes_before(tasks, coefficients, order[a] as int, order[b] as int));
    }
}

/// Every place of `tasks` occurs in the order of a listing.
pub proof fn lemma_order_holds_every_place(
    tasks: Seq<OpenTaskView>,
    coefficients: Coefficients,
    order: Seq<usize>,
    place: int,
)
    requires
        is_urgency_order(tasks, coefficients, order),
        0 <= place < tasks.len(),
    ensures
        exists|k: int| 0 <= k < order.len() && order[k] == place,
{
    broadcast use vstd::seq_lib::seq_to_set_is_finite;

    lemma_order_has_no_duplicates(tasks, coefficients, order);
    let places = Seq::new(order.len(), |k: int| order[k] as int);
    assert forall|a: int, b: int|
        0 <= a < places.len() && 0 <= b < places.len() && a != b implies places[a]
        != places[b] by {
        assert(order[a] != order[b]);
    }
    places.unique_seq_to_set();
    let all = set_int_range(0, tasks.len() as int);
    lemma_int_range(0, tasks.len() as int);
    assert forall|x: int| places.to_set().contains(x) implies all.contains(x) by {
        let k = choose|k: int| 0 <= k < places.len() && places[k] == x;
        assert(order[k] < tasks.len());
    }
    lemma_subset_equality(places.to_set(), all);
    assert(all.contains(place));
    assert(places.contains(place));
    let k = choose|k: int| 0 <= k < places.len() && places[k] == place;
    assert(order[k] == place);
}

/// Two orders of one listing agree in their first places, up to and with
/// the place `upto`.
proof fn lemma_orders_agree_upto(
    tasks: Seq<OpenTaskView>,
    coefficients: Coefficients,
    first: Seq<usize>,
    second: Seq<usize>,
    upto: int,
)
    requires
        is_urgency_order(tasks, coefficients, first),
        is_urgency_order(tasks, coefficients, second),
        0 <= upto < first.len(),
    ensures
        forall|j: int| 0 <= j <= upto ==> first[j] == second[j],
    decreases upto,
{
    if upto > 0 {
        lemma_orders_agree_upto(tasks, coefficients, first, second, upto - 1);
    }
    if first[upto] != second[upto] {
        lemma_order_holds_every_place(tasks, coefficients, second, first[upto] as int);
        let s = choose|k: int| 0 <= k < second.len() && second[k] == first[upto];
        lemma_order_holds_every_place(tasks, coefficients, first, second[upto] as int);
        let f = choose|k: int| 0 <= k < first.len() && first[k] == second[upto];
        if s < upto {
            assert(first[s] == second[s]);
            assert(comes_before(tasks, coefficients, first[s] as int, first[upto] as int));
        }
        if f < upto {
            assert(first[f] == second[f]);
            assert(comes_before(tasks, coefficients, second[f] as int, second[upto] as int));
        }
        assert(comes_before(tasks, coefficients, second[upto] as int, second[s] as int));
        assert(comes_before(tasks, coefficients, first[upto] as int, first[f] as int));
    }
}

/// A listing has one order and no other: what comes first is settled by the
/// urgency, and among equally urgent tasks by their places in the store.
pub proof fn lemma_urgency_order_is_unique(
    tasks: Seq<OpenTaskView>,
    coefficients: Coefficients,
    first: Seq<usize>,
    second: Seq<usize>,
)
    requires
        is_urgency_order(tasks, coefficients, first),
        is_urgency_order(tasks, coefficients, second),
    ensures
        first == second,
{
    if first.len() > 0 {
        lemma_orders_agree_upto(tasks, coefficients, first, second, first.len() - 1);
    }
    assert(first =~= second);
}

impl List {
    /// The row that shows `task`.
    #[must_use]
    pub fn row(task: &OpenTask, coefficients: &Coefficients) -> (row: Row)
        ensures
            row@ == row_of(task@, *coefficients),
    {
        let inner = task.task();
        Row {
            id: task.id(),
            priority: match inner.priority() {
                Some(p) => p.to_string(),
                None => String::new(),
            },
            description: inner.description().clone(),
            urgency: inner.urgency(coefficients),
        }
    }

    /// Whether any task in `store` has a priority.
    #[must_use]
    pub fn has_priority(store: &Store) -> (any: bool)
        ensures
            any == any_priority(store@),
    {
        let tasks = store.as_slice();
        let ghost all = store@;
        let mut i: usize = 0;
        while i < tasks.len()
            invariant
                i <= tasks.len(),
                all == views(tasks@),
                all == store@,
                all.len() == tasks@.len(),
                forall|k: int| 0 <= k < i ==> (#[trigger] all[k]).task.priority is None,
            decreases tasks.len() - i,
        {
            assert(all[i as int] == tasks@[i as int]@);
            if tasks[i].task().priority().is_some() {
                assert(all[i as int].task.priority is Some);
                return true;
            }
            i += 1;
        }
        false
    }

    /// The places of the tasks of `store` in the order of the listing: the
    /// more urgent a task, the earlier its place comes, and tasks that are
    /// equally urgent keep the order of the store.
    #[must_use]
    pub fn order(store: &Store, coefficients: &Coefficients) -> (order: Vec<usize>)
        ensures
            is_urgency_order(store@, *coefficients, order@),
    {
        let tasks = store.as_slice();
        let ghost all = store@;
        let ghost weights = *coefficients;
        let mut keys: Vec<i32> = Vec::new();
        let mut n: usize = 0;
        while n < tasks.len()
            invariant
                n <= tasks.len(),
                all == views(tasks@),
                all.len() == tasks@.len(),
                weights == *coefficients,
                keys@.len() == n,
                forall|k: int| 0 <= k < n ==> keys@[k] == urgency_key(all[k], weights),
            decreases tasks.len() - n,
        {
            assert(all[n as int] == tasks@[n as int]@);
            keys.push(tasks[n].task().urgency(coefficients).sort_key());
            n += 1;
        }
        let mut order: Vec<usize> = Vec::new();
        let mut i: usize = 0;
        while i < tasks.len()
            invariant
                i <= tasks.len(),
                all.len() == tasks@.len(),
                keys@.len() == tasks@.len(),
                forall|k: int| 0 <= k < keys@.len() ==> keys@[k] == urgency_key(all[k], weights),
                order@.len() == i,
                forall|a: int| 0 <= a < order@.len() ==> order@[a] < i,
                forall|a: int, b: int|
                    0 <= a < b < order@.len() ==> comes_before(
                        all,
                        weights,
                        order@[a] as int,
                        order@[b] as int,
                    ),
            decreases tasks.len() - i,
        {
            let key = keys[i];
            let mut at: usize = 0;
            while at < order.len() && keys[order[at]] >= key
                invariant
                    at <= order@.len(),
                    i < keys@.len(),
                    key == keys@[i as int],
                    forall|a: int| 0 <= a < order@.len() ==> order@[a] < i,
                    forall|a: int| 0 <= a < at ==> keys@[order@[a] as int] >= key,
                decreases order@.len() - at,
            {
                at += 1;
            }
            let ghost before = order@;
            order.insert(at, i);
            proof {
                let after = order@;
                assert forall|a: int| 0 <= a < after.len() implies after[a] < i + 1 by {
                    if a < at {
                        assert(after[a] == before[a]);
                    } else if a > at {
                        assert(after[a] == before[a - 1]);
                    }
                }
                assert forall|a: int, b: int| 0 <= a < b < after.len() implies comes_before(
                    all,
                    weights,
                    after[a] as int,
                    after[b] as int,
                ) by {
                    let x = if a < at { a } else { a - 1 };
                    let y = if b < at { b } else { b - 1 };
                    if a != at {
                        assert(after[a] == before[x]);
                    }
                    if b != at {
                        assert(after[b] == before[y]);
                    }
                    if a == at {
                        assert(after[a] == i);
                        assert(at < before.len());
                        assert(keys@[before[at as int] as int] < key);
                        if y > at {
                            assert(comes_before(
                                all,
                                weights,
                                before[at as int] as int,
                                before[y] as int,
                            ));
                        }
                    } else if b == at {
                        assert(after[b] == i);
                        assert(keys@[before[x] as int] >= key);
                    } else {
                        assert(comes_before(all, weights, before[x] as int, before[y] as int));
                    }
                }
            }
            i += 1;
        }
        order
    }

    /// The listing of the tasks of `store`, or none for a store without
    /// tasks. The most urgent task comes first, and tasks that are equally
    /// urgent keep the order of the store.
    #[must_use]
    pub fn table(store: &Store, coefficients: &Coefficients) -> (table: Option<Table>)
        ensures
            table is None <==> store@.len() == 0,
            table matches Some(t) ==> {
                &&& t.has_priority == any_priority(store@)
                &&& exists|order: Seq<usize>|
                    is_urgency_order(store@, *coefficients, order) && row_views(t.rows@)
                        == rows_in(store@, *coefficients, order)
            },
    {
        if store.is_empty() {
            return None;
        }
        let tasks = store.as_slice();
        let ghost all = store@;
        let order = List::order(store, coefficients);
        let mut rows: Vec<Row> = Vec::new();
        let mut k: usize = 0;
        while k < order.len()
            invariant
                k <= order@.len(),
                all == views(tasks@),
                all.len() == tasks@.len(),
                forall|a: int| 0 <= a < order@.len() ==> order@[a] < all.len(),
                rows@.len() == k,
                forall|a: int|
                    0 <= a < k ==> (#[trigger] rows@[a])@ == row_of(
                        all[order@[a] as int],
                        *coefficients,
                    ),
            decreases order@.len() - k,
        {
            let place = order[k];
            assert(all[place as int] == tasks@[place as int]@);
            rows.push(List::row(&tasks[place], coefficients));
            k += 1;
        }
        assert(row_views(rows@) =~= rows_in(all, *coefficients, order@));
        Some(Table { has_priority: List::has_priority(store), rows })
    }
}

} // verus!
