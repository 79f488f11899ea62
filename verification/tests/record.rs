use rustwarrior_core::priority;
use rustwarrior_core::store::record::Record;
use rustwarrior_core::store::Error;
use rustwarrior_core::time::Timestamp;
use rustwarrior_core::OpenTask;
use rustwarrior_core::Priority;
use rustwarrior_core::Store;
use rustwarrior_core::Task;

fn record(id: usize, description: &str, priority: Option<u8>) -> Record {
    Record {
        id,
        uuid: 0xee00fce2_f349_42b1_969e_17d4c6c612f5 + id as u128,
        created: Timestamp::new(1_673_690_224, 275_194_707).unwrap(),
        description: description.to_string(),
        completed: None,
        priority,
    }
}

#[test]
fn record_stores_every_field() {
    let created = Timestamp::new(1_673_690_224, 275_194_707).unwrap();
    let completed = Timestamp::new(1_673_700_000, 1).unwrap();
    let task =
        Task::from_parts(42, created, "some made up task".to_string(), Some(completed), Some(Priority::Two));
    let stored = Record::from_open_task(&OpenTask::new(5, task));
    assert_eq!(
        stored,
        Record {
            id: 5,
            uuid: 42,
            created,
            description: "some made up task".to_string(),
            completed: Some(completed),
            priority: Some(2),
        }
    );
}

#[test]
fn record_without_priority_decodes() {
    let task = record(3, "some made up task", None).to_open_task().unwrap();
    assert_eq!(task.id(), 3);
    assert_eq!(task.task().description(), "some made up task");
    assert_eq!(task.task().priority(), None);
    assert_eq!(task.task().completed(), None);
    assert_eq!(task.task().uuid(), 0xee00fce2_f349_42b1_969e_17d4c6c612f5 + 3);
}

#[test]
fn record_with_priority_decodes() {
    let task = record(0, "some made up task", Some(2)).to_open_task().unwrap();
    assert_eq!(task.task().priority(), Some(Priority::Two));
}

#[test]
fn record_with_bad_priority_fails() {
    assert_eq!(record(0, "a", Some(0)).to_open_task(), Err(priority::Error(0)));
    assert_eq!(record(0, "a", Some(4)).to_open_task(), Err(priority::Error(4)));
}

#[test]
fn record_round_trip() {
    let mut task = Task::new("a".to_string()).with_priority(Priority::Three);
    task.mark_completed();
    let open_task = OpenTask::new(11, task);
    assert_eq!(Record::from_open_task(&open_task).to_open_task(), Ok(open_task));
}

#[test]
fn saved_and_loaded_store_is_the_same() {
    let mut store = Store::new();
    store.push(Task::new("some task".to_string()));
    store.push(Task::new("some task".to_string()).with_priority(Priority::One));
    store.push(Task::new("some task".to_string()));
    store.delete(0);
    store.push(Task::new("another".to_string()));
    store.get_mut(2).unwrap().mark_completed();

    let records = store.to_records();
    let ids: Vec<usize> = records.iter().map(|r| r.id).collect();
    assert_eq!(ids, vec![1, 2, 0]);

    let store2 = Store::from_records(&records).unwrap();
    assert_eq!(store, store2);
}

#[test]
fn one_bad_record_fails_the_whole_load() {
    let records = vec![record(0, "a", None), record(1, "b", Some(7)), record(2, "c", Some(9))];
    assert_eq!(
        Store::from_records(&records),
        Err(Error::InvalidPriority(priority::Error(7)))
    );
}

#[test]
fn records_that_share_an_identifier_fail_the_load() {
    let records = vec![record(0, "a", None), record(1, "b", None), record(0, "c", None)];
    assert_eq!(Store::from_records(&records), Err(Error::DuplicateId(0)));
}

#[test]
fn no_records_make_an_empty_store() {
    assert_eq!(Store::from_records(&Vec::new()), Ok(Store::new()));
    assert!(Store::new().to_records().is_empty());
}
