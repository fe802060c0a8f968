use todolist::command::Command;
use todolist::list::Filter;
use todolist::store::Store;

fn stocked() -> Store {
    let mut store = Store::new();
    store.add("groceries".to_string(), "milk".to_string());
    store.add("groceries".to_string(), "eggs".to_string());
    assert!(store.complete("groceries", 0).is_ok());
    store
}

fn no_lines() -> Vec<String> {
    Vec::new()
}

fn shown(store: &Store) -> Vec<String> {
    store.show(None, None).unwrap()
}

#[test]
fn run_scenario_add_complete_show() {
    let mut store = Store::new();
    let first = store.run(Command::Add {
        list_name: "groceries".to_string(),
        item: "milk".to_string(),
    });
    assert!(first.persist);
    assert_eq!(first.lines, no_lines());
    let second = store.run(Command::Add {
        list_name: "groceries".to_string(),
        item: "eggs".to_string(),
    });
    assert!(second.persist);
    let third = store.run(Command::Complete {
        list_name: "groceries".to_string(),
        item_number: 0,
    });
    assert!(third.persist);
    assert_eq!(third.lines, no_lines());
    let reply = store.run(Command::Show { list_name: Some("groceries".to_string()), filter: None });
    assert!(!reply.persist);
    assert_eq!(reply.lines, vec!["0: [x] milk", "1: [ ] eggs"]);
}

#[test]
fn run_scenario_remove_first_task() {
    let mut store = stocked();
    let reply = store.run(Command::Remove {
        list_name: Some("groceries".to_string()),
        item_number: Some(0),
    });
    assert!(reply.persist);
    assert_eq!(reply.lines, no_lines());
    let reply = store.run(Command::Show { list_name: Some("groceries".to_string()), filter: None });
    assert_eq!(reply.lines, vec!["0: [ ] eggs"]);
}

#[test]
fn run_scenario_complete_on_missing_list() {
    let mut store = stocked();
    let before = shown(&store);
    let reply = store.run(Command::Complete {
        list_name: "missing_list".to_string(),
        item_number: 0,
    });
    assert!(!reply.persist);
    assert_eq!(reply.lines, vec!["List not found"]);
    assert_eq!(shown(&store), before);
}

#[test]
fn run_scenario_remove_everything() {
    let mut store = stocked();
    let reply = store.run(Command::Remove { list_name: None, item_number: None });
    assert!(reply.persist);
    assert_eq!(reply.lines, no_lines());
    assert!(store.list_names().is_empty());
    assert_eq!(shown(&store), no_lines());
}

#[test]
fn run_show_saves_nothing_and_changes_nothing() {
    let mut store = stocked();
    let before = shown(&store);
    let reply = store.run(Command::Show { list_name: None, filter: Some(Filter::All) });
    assert!(!reply.persist);
    assert_eq!(reply.lines, vec!["List: groceries", "0: [x] milk", "1: [ ] eggs"]);
    let reply = store.run(Command::Show {
        list_name: Some("groceries".to_string()),
        filter: Some(Filter::Incomplete),
    });
    assert!(!reply.persist);
    assert_eq!(reply.lines, vec!["1: [ ] eggs"]);
    assert_eq!(shown(&store), before);
}

#[test]
fn run_show_on_missing_list() {
    let mut store = stocked();
    let reply = store.run(Command::Show {
        list_name: Some("missing_list".to_string()),
        filter: None,
    });
    assert!(!reply.persist);
    assert_eq!(reply.lines, vec!["List not found"]);
}

#[test]
fn run_show_on_empty_store() {
    let mut store = Store::new();
    let reply = store.run(Command::Show { list_name: None, filter: None });
    assert!(!reply.persist);
    assert_eq!(reply.lines, no_lines());
}

#[test]
fn run_saves_after_an_index_out_of_range() {
    let mut store = stocked();
    let before = shown(&store);
    let reply = store.run(Command::Complete {
        list_name: "groceries".to_string(),
        item_number: 5,
    });
    assert!(reply.persist);
    assert_eq!(reply.lines, no_lines());
    let reply = store.run(Command::Incomplete {
        list_name: "groceries".to_string(),
        item_number: 5,
    });
    assert!(reply.persist);
    let reply = store.run(Command::Remove {
        list_name: Some("groceries".to_string()),
        item_number: Some(5),
    });
    assert!(reply.persist);
    assert_eq!(shown(&store), before);
}

#[test]
fn run_incomplete() {
    let mut store = stocked();
    let reply = store.run(Command::Incomplete {
        list_name: "groceries".to_string(),
        item_number: 0,
    });
    assert!(reply.persist);
    assert_eq!(shown(&store), vec!["List: groceries", "0: [ ] milk", "1: [ ] eggs"]);
    let reply = store.run(Command::Incomplete {
        list_name: "missing_list".to_string(),
        item_number: 0,
    });
    assert!(!reply.persist);
    assert_eq!(reply.lines, vec!["List not found"]);
}

#[test]
fn run_remove_task_on_missing_list() {
    let mut store = stocked();
    let before = shown(&store);
    let reply = store.run(Command::Remove {
        list_name: Some("missing_list".to_string()),
        item_number: Some(0),
    });
    assert!(!reply.persist);
    assert_eq!(reply.lines, vec!["List not found"]);
    assert_eq!(shown(&store), before);
}

#[test]
fn run_delete_list_saves_whether_or_not_it_was_there() {
    let mut store = stocked();
    let reply = store.run(Command::Remove {
        list_name: Some("missing_list".to_string()),
        item_number: None,
    });
    assert!(reply.persist);
    assert_eq!(reply.lines, no_lines());
    assert_eq!(store.list_names(), vec!["groceries"]);
    let reply = store.run(Command::Remove {
        list_name: Some("groceries".to_string()),
        item_number: None,
    });
    assert!(reply.persist);
    assert!(store.list_names().is_empty());
}

#[test]
fn run_remove_with_an_index_alone() {
    let mut store = stocked();
    let before = shown(&store);
    let reply = store.run(Command::Remove { list_name: None, item_number: Some(0) });
    assert!(!reply.persist);
    assert_eq!(reply.lines, vec!["Invalid command"]);
    assert_eq!(shown(&store), before);
}

#[test]
fn run_add_creates_lists_in_order() {
    let mut store = Store::new();
    for (name, item) in [("b", "one"), ("a", "two"), ("b", "three")] {
        let reply = store.run(Command::Add { list_name: name.to_string(), item: item.to_string() });
        assert!(reply.persist);
        assert_eq!(reply.lines, no_lines());
    }
    assert_eq!(
        shown(&store),
        vec!["List: b", "0: [ ] one", "1: [ ] three", "List: a", "0: [ ] two"]
    );
}
