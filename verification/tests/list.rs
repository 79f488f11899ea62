use rustwarrior_core::cli::list::Row;
use rustwarrior_core::cli::list::Table;
use rustwarrior_core::cli::Add;
use rustwarrior_core::cli::List;
use rustwarrior_core::priority::Error;
use rustwarrior_core::task::Coefficients;
use rustwarrior_core::task::Weight;
use rustwarrior_core::Priority;
use rustwarrior_core::Store;

fn add(store: &mut Store, description: &str, priority: Option<Priority>) -> usize {
    Add { description: description.to_string(), priority }.run(store)
}

fn weight(number: f32) -> Weight {
    Weight::from_bits(number.to_bits())
}

#[test]
fn add_gives_the_next_identifier() {
    let mut store = Store::new();
    assert_eq!(add(&mut store, "a", None), 0);
    assert_eq!(add(&mut store, "b", Some(Priority::Two)), 1);
    assert_eq!(store.get(1).unwrap().task().priority(), Some(Priority::Two));
    assert_eq!(store.get(1).unwrap().task().description(), "b");
    assert_eq!(store.get(0).unwrap().task().priority(), None);
}

#[test]
fn empty_store_has_no_table() {
    assert_eq!(List::table(&Store::new(), &Coefficients::default()), None);
}

#[test]
fn table_lists_the_most_urgent_first() {
    let mut store = Store::new();
    add(&mut store, "none", None);
    add(&mut store, "three", Some(Priority::Three));
    add(&mut store, "one", Some(Priority::One));
    add(&mut store, "two", Some(Priority::Two));
    add(&mut store, "one again", Some(Priority::One));
    add(&mut store, "none again", None);

    let coefficients = Coefficients::default();
    assert_eq!(List::order(&store, &coefficients), vec![2, 4, 3, 1, 0, 5]);

    let table = List::table(&store, &coefficients).unwrap();
    let row = |id: usize, priority: &str, description: &str, urgency: f32| Row {
        id,
        priority: priority.to_string(),
        description: description.to_string(),
        urgency: weight(urgency),
    };
    assert_eq!(
        table,
        Table {
            has_priority: true,
            rows: vec![
                row(2, "1\n", "one", 6.0),
                row(4, "1\n", "one again", 6.0),
                row(3, "2\n", "two", 3.9),
                row(1, "3\n", "three", 1.8),
                row(0, "", "none", 0.0),
                row(5, "", "none again", 0.0),
            ],
        }
    );
}

#[test]
fn table_without_priorities_keeps_the_order_of_the_store() {
    let mut store = Store::new();
    add(&mut store, "a", None);
    add(&mut store, "b", None);
    add(&mut store, "c", None);
    store.delete(0);
    add(&mut store, "d", None);

    let table = List::table(&store, &Coefficients::default()).unwrap();
    assert!(!table.has_priority);
    assert!(!List::has_priority(&store));
    let ids: Vec<usize> = table.rows.iter().map(|row| row.id).collect();
    assert_eq!(ids, vec![1, 2, 0]);
}

#[test]
fn negative_weights_come_after_no_priority() {
    let mut store = Store::new();
    add(&mut store, "one", Some(Priority::One));
    add(&mut store, "none", None);
    add(&mut store, "two", Some(Priority::Two));
    add(&mut store, "three", Some(Priority::Three));

    let mut coefficients = Coefficients::default();
    coefficients.priority.p1 = weight(-2.5);
    coefficients.priority.p2 = weight(0.5);
    coefficients.priority.p3 = weight(-0.0);

    assert_eq!(List::order(&store, &coefficients), vec![2, 1, 3, 0]);
    assert!(List::has_priority(&store));
}

#[test]
fn priority_shows_as_its_level() {
    assert_eq!(Priority::One.to_string(), "1\n");
    assert_eq!(Priority::Two.to_string(), "2\n");
    assert_eq!(Priority::Three.to_string(), "3\n");
}

#[test]
fn priority_is_read_from_text() {
    assert_eq!(Priority::parse("1"), Ok(Priority::One));
    assert_eq!(Priority::parse("2"), Ok(Priority::Two));
    assert_eq!("3".parse::<Priority>(), Ok(Priority::Three));
    assert_eq!(Priority::parse("+2"), Ok(Priority::Two));
    assert_eq!(Priority::parse("002"), Ok(Priority::Two));
    for text in ["0", "4", "255", "256", "", "+", "-1", " 1", "1 ", "one", "1.0", "٣"] {
        assert_eq!(Priority::parse(text), Err(Error(text.to_string())), "{text:?}");
    }
}
