use todolist::decimal::decimal_string;
use todolist::list::{Filter, Task, TodoList};

fn sample() -> TodoList {
    let mut list = TodoList::new();
    list.add("milk".to_string());
    list.add("eggs".to_string());
    list.add("bread".to_string());
    list
}

fn descriptions(list: &TodoList) -> Vec<String> {
    list.tasks.iter().map(|task| task.description.clone()).collect()
}

fn flags(list: &TodoList) -> Vec<bool> {
    list.tasks.iter().map(|task| task.completed).collect()
}

#[test]
fn new_list_is_empty() {
    let list = TodoList::new();
    assert!(list.tasks.is_empty());
    assert!(list.show(None).is_empty());
}

#[test]
fn default_list_is_empty() {
    let list = TodoList::default();
    assert!(list.tasks.is_empty());
}

#[test]
fn add_keeps_call_order() {
    let list = sample();
    assert_eq!(descriptions(&list), vec!["milk", "eggs", "bread"]);
}

#[test]
fn added_tasks_start_incomplete() {
    let list = sample();
    assert_eq!(flags(&list), vec![false, false, false]);
}

#[test]
fn add_accepts_an_empty_description() {
    let mut list = TodoList::new();
    list.add(String::new());
    assert_eq!(list.tasks.len(), 1);
    assert_eq!(list.tasks[0].description, "");
    assert_eq!(list.show(None), vec!["0: [ ] "]);
}

#[test]
fn add_keeps_earlier_tasks() {
    let mut list = sample();
    list.complete(1);
    list.add("tea".to_string());
    assert_eq!(descriptions(&list), vec!["milk", "eggs", "bread", "tea"]);
    assert_eq!(flags(&list), vec![false, true, false, false]);
}

#[test]
fn complete_sets_the_flag_of_one_task() {
    let mut list = sample();
    list.complete(1);
    assert_eq!(flags(&list), vec![false, true, false]);
    assert_eq!(descriptions(&list), vec!["milk", "eggs", "bread"]);
}

#[test]
fn complete_twice_stays_completed() {
    let mut list = sample();
    list.complete(2);
    list.complete(2);
    assert_eq!(flags(&list), vec![false, false, true]);
}

#[test]
fn complete_out_of_range_changes_nothing() {
    let mut list = sample();
    list.complete(3);
    list.complete(usize::MAX);
    assert_eq!(flags(&list), vec![false, false, false]);
    assert_eq!(descriptions(&list), vec!["milk", "eggs", "bread"]);
}

#[test]
fn complete_on_empty_list_changes_nothing() {
    let mut list = TodoList::new();
    list.complete(0);
    assert!(list.tasks.is_empty());
}

#[test]
fn incomplete_clears_the_flag_of_one_task() {
    let mut list = sample();
    list.complete(0);
    list.complete(1);
    list.incomplete(0);
    assert_eq!(flags(&list), vec![false, true, false]);
}

#[test]
fn incomplete_out_of_range_changes_nothing() {
    let mut list = sample();
    list.complete(0);
    list.incomplete(3);
    assert_eq!(flags(&list), vec![true, false, false]);
}

#[test]
fn complete_then_incomplete_restores_the_list() {
    let mut list = sample();
    list.complete(1);
    list.incomplete(1);
    assert_eq!(descriptions(&list), vec!["milk", "eggs", "bread"]);
    assert_eq!(flags(&list), vec![false, false, false]);
}

#[test]
fn complete_then_incomplete_leaves_a_completed_task_incomplete() {
    let mut list = sample();
    list.complete(1);
    list.complete(1);
    list.incomplete(1);
    assert_eq!(flags(&list), vec![false, false, false]);
}

#[test]
fn remove_shifts_later_tasks_down() {
    let mut list = sample();
    list.complete(2);
    list.remove(1);
    assert_eq!(list.tasks.len(), 2);
    assert_eq!(descriptions(&list), vec!["milk", "bread"]);
    assert_eq!(flags(&list), vec![false, true]);
}

#[test]
fn remove_first_and_last() {
    let mut list = sample();
    list.remove(0);
    assert_eq!(descriptions(&list), vec!["eggs", "bread"]);
    list.remove(1);
    assert_eq!(descriptions(&list), vec!["eggs"]);
    list.remove(0);
    assert!(list.tasks.is_empty());
}

#[test]
fn remove_out_of_range_changes_nothing() {
    let mut list = sample();
    list.remove(3);
    list.remove(usize::MAX);
    assert_eq!(descriptions(&list), vec!["milk", "eggs", "bread"]);
    let mut empty = TodoList::new();
    empty.remove(0);
    assert!(empty.tasks.is_empty());
}

#[test]
fn show_without_filter_shows_every_task() {
    let mut list = sample();
    list.complete(0);
    assert_eq!(list.show(None), vec!["0: [x] milk", "1: [ ] eggs", "2: [ ] bread"]);
}

#[test]
fn show_all_shows_every_task() {
    let mut list = sample();
    list.complete(2);
    assert_eq!(
        list.show(Some(Filter::All)),
        vec!["0: [ ] milk", "1: [ ] eggs", "2: [x] bread"]
    );
}

#[test]
fn show_completed_keeps_the_index_of_the_whole_list() {
    let mut list = sample();
    list.complete(0);
    list.complete(2);
    assert_eq!(list.show(Some(Filter::Completed)), vec!["0: [x] milk", "2: [x] bread"]);
}

#[test]
fn show_incomplete_keeps_the_index_of_the_whole_list() {
    let mut list = sample();
    list.complete(0);
    assert_eq!(list.show(Some(Filter::Incomplete)), vec!["1: [ ] eggs", "2: [ ] bread"]);
}

#[test]
fn show_may_show_nothing() {
    let list = sample();
    assert!(list.show(Some(Filter::Completed)).is_empty());
    let mut done = sample();
    done.complete(0);
    done.complete(1);
    done.complete(2);
    assert!(done.show(Some(Filter::Incomplete)).is_empty());
}

#[test]
fn show_can_be_asked_again() {
    let mut list = sample();
    list.complete(1);
    let first = list.show(Some(Filter::Completed));
    let second = list.show(Some(Filter::Completed));
    assert_eq!(first, second);
    assert_eq!(descriptions(&list), vec!["milk", "eggs", "bread"]);
}

#[test]
fn show_numbers_past_nine_in_decimal() {
    let mut list = TodoList::new();
    for i in 0..12 {
        list.add(format!("task {}", i));
    }
    list.complete(10);
    let lines = list.show(None);
    assert_eq!(lines.len(), 12);
    assert_eq!(lines[9], "9: [ ] task 9");
    assert_eq!(lines[10], "10: [x] task 10");
    assert_eq!(lines[11], "11: [ ] task 11");
}

#[test]
fn line_of_a_task() {
    let done = Task { description: "milk".to_string(), completed: true };
    let open = Task { description: "eggs".to_string(), completed: false };
    assert_eq!(done.line(0), "0: [x] milk");
    assert_eq!(open.line(1), "1: [ ] eggs");
    assert_eq!(open.line(407), "407: [ ] eggs");
}

#[test]
fn line_keeps_the_description_as_it_is() {
    let task = Task { description: "  caf\u{e9}: [x] ".to_string(), completed: false };
    assert_eq!(task.line(3), "3: [ ]   caf\u{e9}: [x] ");
}

#[test]
fn decimal_of_single_digits() {
    assert_eq!(decimal_string(0), "0");
    assert_eq!(decimal_string(7), "7");
    assert_eq!(decimal_string(9), "9");
}

#[test]
fn decimal_of_longer_numbers() {
    assert_eq!(decimal_string(10), "10");
    assert_eq!(decimal_string(100), "100");
    assert_eq!(decimal_string(1234567890), "1234567890");
    assert_eq!(decimal_string(usize::MAX), usize::MAX.to_string());
}

#[test]
fn decimal_agrees_with_the_standard_library() {
    for n in 0..2000usize {
        assert_eq!(decimal_string(n), n.to_string());
    }
}
