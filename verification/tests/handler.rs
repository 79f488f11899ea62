use rustwarrior_core::handler::normalize_filter;
use rustwarrior_core::handler::parse_priority;
use rustwarrior_core::handler::to_task_info;
use rustwarrior_core::handler::tools::complete_task;
use rustwarrior_core::handler::tools::complete_task::CompleteTaskParams;
use rustwarrior_core::handler::tools::create_task;
use rustwarrior_core::handler::tools::create_task::CreateTaskParams;
use rustwarrior_core::handler::tools::delete_task;
use rustwarrior_core::handler::tools::delete_task::DeleteTaskParams;
use rustwarrior_core::handler::tools::get_task;
use rustwarrior_core::handler::tools::get_task::GetTaskParams;
use rustwarrior_core::handler::tools::list_tasks;
use rustwarrior_core::handler::tools::list_tasks::ListTasksParams;
use rustwarrior_core::handler::tools::search_tasks;
use rustwarrior_core::handler::tools::search_tasks::SearchTasksParams;
use rustwarrior_core::handler::tools::set_priority;
use rustwarrior_core::handler::tools::set_priority::SetPriorityParams;
use rustwarrior_core::handler::tools::TaskInfo;
use rustwarrior_core::handler::Error;
use rustwarrior_core::priority;
use rustwarrior_core::time::Timestamp;
use rustwarrior_core::OpenTask;
use rustwarrior_core::Priority;
use rustwarrior_core::Store;
use rustwarrior_core::Task;

fn create(store: &mut Store, description: &str, priority: Option<u8>) -> Result<usize, Error> {
    create_task::handle(
        store,
        CreateTaskParams { description: description.to_string(), priority },
    )
}

fn list(store: &Store, filter: Option<&str>, priority: Option<u8>) -> Vec<usize> {
    let params = ListTasksParams { filter: filter.map(str::to_string), priority };
    list_tasks::handle(store, params).unwrap().iter().map(|info| info.id).collect()
}

fn search(store: &Store, query: Option<&str>, priority: Option<u8>) -> Vec<TaskInfo> {
    let params = SearchTasksParams { query: query.map(str::to_string), priority };
    search_tasks::handle(store, params).unwrap()
}

fn sample() -> Store {
    let mut store = Store::new();
    create(&mut store, "Buy Milk", None).unwrap();
    create(&mut store, "write REPORT", Some(2)).unwrap();
    create(&mut store, "call dentist", Some(1)).unwrap();
    create(&mut store, "stay active", Some(2)).unwrap();
    complete_task::handle(&mut store, CompleteTaskParams { id: 2 }).unwrap();
    store
}

#[test]
fn end_to_end() {
    let mut store = Store::new();

    assert_eq!(create(&mut store, "buy milk", None), Ok(0));
    assert_eq!(create(&mut store, "write report", Some(2)), Ok(1));
    assert_eq!(delete_task::handle(&mut store, DeleteTaskParams { id: 0 }), Ok(()));
    assert_eq!(create(&mut store, "call dentist", None), Ok(0));

    let found = search(&store, Some("report"), None);
    assert_eq!(found.len(), 1);
    assert_eq!(found[0].id, 1);
    assert_eq!(found[0].description, "write report");
    assert_eq!(found[0].priority, Some(2));
    assert!(!found[0].is_completed);
    assert_eq!(found[0].completed, None);
}

#[test]
fn parse_priority_reads_levels() {
    assert_eq!(parse_priority(None), Ok(None));
    assert_eq!(parse_priority(Some(1)), Ok(Some(Priority::One)));
    assert_eq!(parse_priority(Some(2)), Ok(Some(Priority::Two)));
    assert_eq!(parse_priority(Some(3)), Ok(Some(Priority::Three)));
    assert_eq!(parse_priority(Some(0)), Err(Error::InvalidPriority(priority::Error(0))));
    assert_eq!(parse_priority(Some(4)), Err(Error::InvalidPriority(priority::Error(4))));
}

#[test]
fn normalize_filter_trims_and_lowers() {
    let filter = |text: &str| normalize_filter(Some(&text.to_string()));
    assert_eq!(filter("  Active \t"), Some("active".to_string()));
    assert_eq!(filter("REPORT"), Some("report".to_string()));
    assert_eq!(filter("Write Report"), Some("write report".to_string()));
    assert_eq!(filter(" ÄÖ "), Some("äö".to_string()));
    assert_eq!(filter(""), None);
    assert_eq!(filter("   \n\t "), None);
    assert_eq!(normalize_filter(None), None);
}

#[test]
fn create_turns_down_a_bad_priority() {
    let mut store = sample();
    let before = store.len();
    assert_eq!(
        create(&mut store, "x", Some(0)),
        Err(Error::InvalidPriority(priority::Error(0)))
    );
    assert_eq!(
        create(&mut store, "x", Some(9)),
        Err(Error::InvalidPriority(priority::Error(9)))
    );
    assert_eq!(store.len(), before);
}

#[test]
fn create_sets_description_and_priority() {
    let mut store = Store::new();
    let id = create(&mut store, "write report", Some(3)).unwrap();
    let task = store.get(id).unwrap().task();
    assert_eq!(task.description(), "write report");
    assert_eq!(task.priority(), Some(Priority::Three));
    assert!(!task.is_completed());
}

#[test]
fn complete_marks_once() {
    let mut store = sample();
    assert_eq!(complete_task::handle(&mut store, CompleteTaskParams { id: 1 }), Ok(()));
    let first = store.get(1).unwrap().task().completed();
    assert!(first.is_some());
    assert_eq!(complete_task::handle(&mut store, CompleteTaskParams { id: 1 }), Ok(()));
    assert_eq!(store.get(1).unwrap().task().completed(), first);
    assert_eq!(
        complete_task::handle(&mut store, CompleteTaskParams { id: 17 }),
        Err(Error::NotFound(17))
    );
}

#[test]
fn delete_removes_or_reports() {
    let mut store = sample();
    assert_eq!(delete_task::handle(&mut store, DeleteTaskParams { id: 1 }), Ok(()));
    assert!(store.get(1).is_none());
    assert_eq!(
        delete_task::handle(&mut store, DeleteTaskParams { id: 1 }),
        Err(Error::NotFound(1))
    );
    assert_eq!(list(&store, None, None), vec![0, 2, 3]);
}

#[test]
fn get_shows_the_task() {
    let store = sample();
    let info = get_task::handle(&store, GetTaskParams { id: 1 }).unwrap();
    assert_eq!(info.id, 1);
    assert_eq!(info.description, "write REPORT");
    assert_eq!(info.priority, Some(2));
    assert!(!info.is_completed);
    assert_eq!(get_task::handle(&store, GetTaskParams { id: 8 }), Err(Error::NotFound(8)));
}

#[test]
fn set_priority_sets_and_clears() {
    let mut store = sample();
    let set = |store: &mut Store, id: usize, priority: Option<u8>| {
        set_priority::handle(store, SetPriorityParams { id, priority })
    };
    assert_eq!(set(&mut store, 0, Some(1)), Ok(Some(Priority::One)));
    assert_eq!(store.get(0).unwrap().task().priority(), Some(Priority::One));
    assert_eq!(set(&mut store, 0, None), Ok(None));
    assert_eq!(store.get(0).unwrap().task().priority(), None);
    assert_eq!(set(&mut store, 9, Some(1)), Err(Error::NotFound(9)));
    assert_eq!(set(&mut store, 9, Some(7)), Err(Error::InvalidPriority(priority::Error(7))));
    assert_eq!(set(&mut store, 1, Some(7)), Err(Error::InvalidPriority(priority::Error(7))));
    assert_eq!(store.get(1).unwrap().task().priority(), Some(Priority::Two));
}

#[test]
fn list_filters_by_state_text_and_priority() {
    let store = sample();
    assert_eq!(list(&store, None, None), vec![0, 1, 2, 3]);
    assert_eq!(list(&store, Some("active"), None), vec![0, 1, 3]);
    assert_eq!(list(&store, Some("  ACTIVE "), None), vec![0, 1, 3]);
    assert_eq!(list(&store, Some("completed"), None), vec![2]);
    assert_eq!(list(&store, Some("report"), None), vec![1]);
    assert_eq!(list(&store, Some("MILK"), None), vec![0]);
    assert_eq!(list(&store, Some("   "), None), vec![0, 1, 2, 3]);
    assert_eq!(list(&store, None, Some(2)), vec![1, 3]);
    assert_eq!(list(&store, Some("active"), Some(2)), vec![1, 3]);
    assert_eq!(list(&store, Some("completed"), Some(2)), Vec::<usize>::new());
    assert_eq!(list(&store, Some("nothing like it"), None), Vec::<usize>::new());
    assert_eq!(
        list_tasks::handle(&store, ListTasksParams { filter: None, priority: Some(5) }),
        Err(Error::InvalidPriority(priority::Error(5)))
    );
}

#[test]
fn search_takes_every_query_as_text() {
    let store = sample();
    let ids = |query: Option<&str>, priority: Option<u8>| -> Vec<usize> {
        search(&store, query, priority).iter().map(|info| info.id).collect()
    };
    assert_eq!(ids(None, None), vec![0, 1, 2, 3]);
    assert_eq!(ids(Some("active"), None), vec![3]);
    assert_eq!(ids(Some("completed"), None), Vec::<usize>::new());
    assert_eq!(ids(Some("Report"), None), vec![1]);
    assert_eq!(ids(Some("t"), None), vec![1, 2, 3]);
    assert_eq!(ids(Some("t"), Some(2)), vec![1, 3]);
    assert_eq!(ids(None, Some(1)), vec![2]);
    assert_eq!(
        search_tasks::handle(&store, SearchTasksParams { query: None, priority: Some(0) }),
        Err(Error::InvalidPriority(priority::Error(0)))
    );
}

#[test]
fn task_info_shows_times_as_text() {
    let created = Timestamp::new(1_673_690_224, 275_194_707).unwrap();
    let completed = Timestamp::new(1_431_648_000, 0).unwrap();
    let task = Task::from_parts(7, created, "x".to_string(), Some(completed), Some(Priority::One));
    let info = to_task_info(&OpenTask::new(3, task));
    assert_eq!(
        info,
        TaskInfo {
            id: 3,
            description: "x".to_string(),
            priority: Some(1),
            created: "2023-01-14 09:57:04.275194707 UTC".to_string(),
            completed: Some("2015-05-15 00:00:00 UTC".to_string()),
            is_completed: true,
        }
    );
}
