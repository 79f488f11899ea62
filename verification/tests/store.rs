use rustwarrior_core::store::Error;
use rustwarrior_core::OpenTask;
use rustwarrior_core::Store;
use rustwarrior_core::Task;

fn task(description: &str) -> Task {
    Task::new(description.to_string())
}

fn store_with_ids(ids: &[usize]) -> Store {
    let open_tasks = ids.iter().map(|id| OpenTask::new(*id, task("some task"))).collect();
    Store::from_open_tasks(open_tasks).unwrap()
}

#[test]
fn store_missing_id() {
    let store = Store::default();

    assert_eq!(store.first_missing_id(), 0);

    let store = store_with_ids(&[0]);

    assert_eq!(store.first_missing_id(), 1);

    let store = store_with_ids(&[0, 1, 3]);

    assert_eq!(store.first_missing_id(), 2);

    let store = store_with_ids(&[0, 1, 3, 2]);

    assert_eq!(store.first_missing_id(), 4);
}

#[test]
fn missing_id_of_unsorted_identifiers() {
    assert_eq!(store_with_ids(&[5, 0, 2, 1]).first_missing_id(), 3);
    assert_eq!(store_with_ids(&[3, 2, 1]).first_missing_id(), 0);
    assert_eq!(store_with_ids(&[2, 0, 1]).first_missing_id(), 3);
}

#[test]
fn pushes_into_an_empty_store_count_from_zero() {
    let mut store = Store::new();
    for expected in 0..25 {
        assert_eq!(store.push(task("some task")), expected);
    }
    assert_eq!(store.len(), 25);
    let ids: Vec<usize> = store.iter().map(|t| t.id()).collect();
    assert_eq!(ids, (0..25).collect::<Vec<usize>>());
}

#[test]
fn deleted_identifier_is_reused() {
    let mut store = Store::new();
    store.push(task("a"));
    store.push(task("b"));
    store.push(task("c"));

    let deleted = store.delete(1).unwrap();
    assert_eq!(deleted.id(), 1);
    assert_eq!(deleted.task().description(), "b");

    assert_eq!(store.push(task("d")), 1);
    assert_eq!(store.push(task("e")), 3);
}

#[test]
fn smallest_identifier_is_reused_when_it_is_zero() {
    let mut store = Store::new();
    store.push(task("a"));
    store.push(task("b"));
    assert!(store.delete(0).is_some());
    assert_eq!(store.push(task("c")), 0);
}

#[test]
fn zero_is_handed_out_while_it_is_free() {
    let mut store = store_with_ids(&[1, 2]);
    assert!(store.delete(1).is_some());
    assert_eq!(store.push(task("c")), 0);
}

#[test]
fn insertion_order_is_kept() {
    let mut store = Store::new();
    store.push(task("a"));
    store.push(task("b"));
    store.push(task("c"));
    store.delete(0);
    store.push(task("d"));

    let seen: Vec<(usize, String)> =
        store.iter().map(|t| (t.id(), t.task().description().clone())).collect();
    assert_eq!(
        seen,
        vec![(1, "b".to_string()), (2, "c".to_string()), (0, "d".to_string())]
    );
    let from_slice: Vec<usize> = store.as_slice().iter().map(|t| t.id()).collect();
    assert_eq!(from_slice, vec![1, 2, 0]);
}

#[test]
fn get_finds_by_identifier() {
    let mut store = Store::new();
    store.push(task("a"));
    store.push(task("b"));

    assert_eq!(store.get(1).unwrap().task().description(), "b");
    assert_eq!(store.get(1).unwrap().id(), 1);
    assert!(store.get(2).is_none());
}

#[test]
fn get_mut_changes_the_task_in_place() {
    let mut store = Store::new();
    store.push(task("a"));
    store.push(task("b"));

    store.get_mut(1).unwrap().mark_completed();

    assert!(store.get(1).unwrap().task().is_completed());
    assert!(!store.get(0).unwrap().task().is_completed());
    assert!(store.get_mut(7).is_none());
    assert_eq!(store.len(), 2);
}

#[test]
fn delete_of_an_absent_identifier_removes_nothing() {
    let mut store = Store::new();
    store.push(task("a"));

    assert!(store.delete(3).is_none());
    assert_eq!(store.len(), 1);
}

#[test]
fn empty_store_is_empty() {
    let mut store = Store::new();
    assert!(store.is_empty());
    assert_eq!(store.len(), 0);
    store.push(task("a"));
    assert!(!store.is_empty());
    assert_eq!(store.len(), 1);
    assert_eq!(Store::default(), Store::new());
}

#[test]
fn shared_identifiers_make_no_store() {
    let open_tasks = vec![
        OpenTask::new(0, task("a")),
        OpenTask::new(4, task("b")),
        OpenTask::new(4, task("c")),
    ];
    assert_eq!(Store::from_open_tasks(open_tasks), Err(Error::DuplicateId(4)));
}

#[test]
fn open_task_gives_its_parts() {
    let mut open_task = OpenTask::new(9, task("a"));
    assert_eq!(open_task.id(), 9);
    open_task.task_mut().mark_completed();
    assert!(open_task.task().is_completed());
    assert_eq!(open_task.id(), 9);
    let copy = open_task.clone();
    assert_eq!(copy, open_task);
    assert_eq!(open_task.into_task().description(), "a");
}

#[test]
fn store_is_walked_in_order() {
    let mut store = Store::new();
    store.push(task("a"));
    store.push(task("b"));
    store.delete(0);
    store.push(task("c"));

    let mut seen = Vec::new();
    for open_task in &store {
        seen.push((open_task.id(), open_task.description().clone()));
    }
    assert_eq!(seen, vec![(1, "b".to_string()), (0, "c".to_string())]);
}

#[test]
fn open_task_stands_for_its_task() {
    let open_task = OpenTask::new(2, task("a").with_priority(rustwarrior_core::Priority::Two));
    assert_eq!(open_task.description(), "a");
    assert_eq!(open_task.priority(), Some(rustwarrior_core::Priority::Two));
    assert!(!open_task.is_completed());
}
