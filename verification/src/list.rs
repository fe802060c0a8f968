//! A single to-do list: an ordered sequence of tasks.

use vstd::prelude::*;
use vstd::string::StringExecFns;
use crate::decimal::{decimal, decimal_string};

verus! {

/// Which tasks of a list are shown.
#[derive(Clone, Copy, Debug, PartialEq, Eq, Structural)]
pub enum Filter {
    All,
    Completed,
    Incomplete,
}

/// One entry of a list. A task has no identity beyond its position.
pub struct Task {
    pub description: String,
    pub completed: bool,
}

/// The mathematical value of a [`Task`].
pub ghost struct TaskView {
    pub description: Seq<char>,
    pub completed: bool,
}

impl View for Task {
    type V = TaskView;

    open spec fn view(&self) -> TaskView {
        TaskView { description: self.description@, completed: self.completed }
    }
}

/// An ordered list of tasks. The position of a task is its index, from 0.
pub struct TodoList {
    pub tasks: Vec<Task>,
}

impl View for TodoList {
    type V = Seq<TaskView>;

    open spec fn view(&self) -> Seq<TaskView> {
        self.tasks@.map_values(|t: Task| t@)
    }
}

/// A fresh, incomplete task with the given description.
pub open spec fn fresh_task(description: Seq<char>) -> TaskView {
    TaskView { description, completed: false }
}

/// The list after a task with the given description was appended.
pub open spec fn list_add(list: Seq<TaskView>, description: Seq<char>) -> Seq<TaskView> {
    list.push(fresh_task(description))
}

/// The list with the completion flag of the task at `index` set to
/// `completed`; the list itself where `index` is out of range.
pub open spec fn list_mark(list: Seq<TaskView>, index: int, completed: bool) -> Seq<TaskView> {
    if 0 <= index < list.len() {
        list.update(index, TaskView { description: list[index].description, completed })
    } else {
        list
    }
}

/// The list without the task at `index`, later tasks moved down by one; the
/// list itself where `index` is out of range.
pub open spec fn list_remove(list: Seq<TaskView>, index: int) -> Seq<TaskView> {
    if 0 <= index < list.len() {
        list.remove(index)
    } else {
        list
    }
}

/// Whether a task with the given completion flag passes the filter. No
/// filter shows every task, as `All` does.
pub open spec fn filter_admits(filter: Option<Filter>, completed: bool) -> bool {
    match filter {
        Some(Filter::Completed) => completed,
        Some(Filter::Incomplete) => !completed,
        _ => true,
    }
}

/// The positions of the tasks that pass the filter, in ascending order.
pub open spec fn shown_indices(list: Seq<TaskView>, filter: Option<Filter>) -> Seq<int> {
    Seq::new(list.len(), |i: int| i).filter(|i: int| filter_admits(filter, list[i].completed))
}

/// The text of one shown task: its index in decimal, a colon and a space,
/// `[x]` for a completed task and `[ ]` for any other, a space, and the
/// description.
pub open spec fn line_text(index: nat, task: TaskView) -> Seq<char> {
    decimal(index) + seq![':', ' ', '[', if task.completed { 'x' } else { ' ' }, ']', ' ']
        + task.description
}

/// The lines that showing a list under a filter gives: one for each task
/// that passes, in the order of the list, each under its index in the
/// whole list.
pub open spec fn show_lines(list: Seq<TaskView>, filter: Option<Filter>) -> Seq<Seq<char>> {
    shown_indices(list, filter).map_values(|i: int| line_text(i as nat, list[i]))
}

/// The views of a vector of strings.
pub open spec fn texts(lines: Seq<String>) -> Seq<Seq<char>> {
    lines.map_values(|line: String| line@)
}

/// The list after a task was appended for each description in turn.
pub open spec fn list_add_all(list: Seq<TaskView>, items: Seq<Seq<char>>) -> Seq<TaskView>
    decreases items.len(),
{
    if items.len() == 0 {
        list
    } else {
        list_add(list_add_all(list, items.drop_last()), items.last())
    }
}

/// Adding to an empty list keeps the order of the calls: the task at each
/// position has the description of the call of that position, and is not
/// completed.
pub proof fn lemma_add_keeps_call_order(items: Seq<Seq<char>>)
    ensures
        list_add_all(Seq::empty(), items).len() == items.len(),
        forall|i: int|
            0 <= i < items.len() ==> #[trigger] list_add_all(Seq::empty(), items)[i] == fresh_task(
                items[i],
            ),
    decreases items.len(),
{
    if items.len() > 0 {
        lemma_add_keeps_call_order(items.drop_last());
    }
}

/// Adding changes no task that is already in the list.
pub proof fn lemma_add_keeps_earlier_tasks(list: Seq<TaskView>, description: Seq<char>)
    ensures
        list_add(list, description).len() == list.len() + 1,
        list_add(list, description).last() == fresh_task(description),
        forall|i: int| 0 <= i < list.len() ==> #[trigger] list_add(list, description)[i] == list[i],
{
}

/// Completing a task that is not completed and then marking it as not
/// completed again gives the list back as it was.
pub proof fn lemma_complete_then_incomplete(list: Seq<TaskView>, index: int)
    requires
        0 <= index < list.len(),
        !list[index].completed,
    ensures
        list_mark(list_mark(list, index, true), index, false) == list,
{
    assert(list_mark(list_mark(list, index, true), index, false) =~= list);
}

/// Setting the flag of a task twice is setting it once to the later value;
/// no description and no other task changes.
pub proof fn lemma_mark_twice(list: Seq<TaskView>, index: int, first: bool, second: bool)
    ensures
        list_mark(list_mark(list, index, first), index, second) == list_mark(list, index, second),
        list_mark(list, index, second).len() == list.len(),
        forall|i: int|
            0 <= i < list.len() ==> (#[trigger] list_mark(list, index, second)[i]).description
                == list[i].description,
        forall|i: int|
            0 <= i < list.len() && i != index ==> #[trigger] list_mark(list, index, second)[i]
                == list[i],
{
    assert(list_mark(list_mark(list, index, first), index, second) =~= list_mark(
        list,
        index,
        second,
    ));
}

/// Removing the task at a valid index makes the list one shorter, leaves
/// the tasks before the index where they were, and moves each later task
/// down by one position.
pub proof fn lemma_remove_shifts_down(list: Seq<TaskView>, index: int)
    requires
        0 <= index < list.len(),
    ensures
        list_remove(list, index).len() == list.len() - 1,
        forall|i: int| 0 <= i < index ==> #[trigger] list_remove(list, index)[i] == list[i],
        forall|i: int|
            index <= i < list.len() - 1 ==> #[trigger] list_remove(list, index)[i] == list[i + 1],
{
}

proof fn lemma_filter_keeps_all<A>(s: Seq<A>, pred: spec_fn(A) -> bool)
    requires
        forall|i: int| 0 <= i < s.len() ==> pred(#[trigger] s[i]),
    ensures
        s.filter(pred) == s,
    decreases s.len(),
{
    reveal(Seq::filter);
    if s.len() > 0 {
        lemma_filter_keeps_all(s.drop_last(), pred);
        assert(s.drop_last().push(s.last()) =~= s);
    }
}

/// Without a filter, and under `All`, every task is shown: the line at
/// each position is that of the task at that position.
pub proof fn lemma_show_all(list: Seq<TaskView>, filter: Option<Filter>)
    requires
        filter is None || filter == Some(Filter::All),
    ensures
        show_lines(list, filter) == Seq::new(list.len(), |i: int| line_text(i as nat, list[i])),
{
    let ids = Seq::new(list.len(), |i: int| i);
    lemma_filter_keeps_all(ids, |i: int| filter_admits(filter, list[i].completed));
    assert(show_lines(list, filter) =~= Seq::new(
        list.len(),
        |i: int| line_text(i as nat, list[i]),
    ));
}

impl Task {
    /// The line that shows the task at position `index`.
    pub fn line(&self, index: usize) -> (text: String)
        ensures
            text@ == line_text(index as nat, self@),
    {
        proof {
            reveal_strlit(": [x] ");
            reveal_strlit(": [ ] ");
        }
        let mut text = decimal_string(index);
        text.append(if self.completed { ": [x] " } else { ": [ ] " });
        text.append(self.description.as_str());
        text
    }
}

impl Default for TodoList {
    /// The empty list.
    fn default() -> (list: TodoList)
        ensures
            list@ == Seq::<TaskView>::empty(),
    {
        TodoList::new()
    }
}

impl TodoList {
    /// The empty list.
    pub fn new() -> (list: TodoList)
        ensures
            list@ == Seq::<TaskView>::empty(),
    {
        TodoList { tasks: Vec::new() }
    }

    /// Appends an incomplete task at the end. Every earlier task keeps its
    /// position.
    pub fn add(&mut self, item: String)
        ensures
            final(self)@ == list_add(old(self)@, item@),
    {
        self.tasks.push(Task { description: item, completed: false });
    }

    /// Marks the task at `item_number` as completed. An index out of range
    /// changes nothing.
    pub fn complete(&mut self, item_number: usize)
        ensures
            final(self)@ == list_mark(old(self)@, item_number as int, true),
    {
        if item_number < self.tasks.len() {
            self.tasks[item_number].completed = true;
        }
    }

    /// Marks the task at `item_number` as not completed. An index out of
    /// range changes nothing.
    pub fn incomplete(&mut self, item_number: usize)
        ensures
            final(self)@ == list_mark(old(self)@, item_number as int, false),
    {
        if item_number < self.tasks.len() {
            self.tasks[item_number].completed = false;
        }
    }

    /// Deletes the task at `item_number`; every later task moves down by
    /// one position. An index out of range changes nothing.
    pub fn remove(&mut self, item_number: usize)
        ensures
            final(self)@ == list_remove(old(self)@, item_number as int),
    {
        if item_number < self.tasks.len() {
            self.tasks.remove(item_number);
        }
    }

    /// The lines of the tasks that pass `filter`, in ascending order of
    /// index. The list is left as it is, so the lines can be asked for
    /// again.
    pub fn show(&self, filter: Option<Filter>) -> (lines: Vec<String>)
        ensures
            texts(lines@) == show_lines(self@, filter),
    {
        let mut lines: Vec<String> = Vec::new();
        let ghost ids = |k: int| k;
        let ghost admits = |k: int| filter_admits(filter, self@[k].completed);
        let ghost render = |k: int| line_text(k as nat, self@[k]);
        let mut i: usize = 0;
        while i < self.tasks.len()
            invariant
                i <= self.tasks.len(),
                ids == |k: int| k,
                admits == |k: int| filter_admits(filter, self@[k].completed),
                render == |k: int| line_text(k as nat, self@[k]),
                texts(lines@) == Seq::new(i as nat, ids).filter(admits).map_values(render),
            decreases self.tasks.len() - i,
        {
            let task = &self.tasks[i];
            let shown = match filter {
                Some(Filter::Completed) => task.completed,
                Some(Filter::Incomplete) => !task.completed,
                _ => true,
            };
            proof {
                // One more index: it is kept exactly where the task passes.
                let before = Seq::new(i as nat, ids);
                let after = Seq::new((i + 1) as nat, ids);
                assert(after.drop_last() == before);
                reveal(Seq::filter);
                assert(after.filter(admits) == if shown {
                    before.filter(admits).push(i as int)
                } else {
                    before.filter(admits)
                });
                assert(before.filter(admits).push(i as int).map_values(render)
                    == texts(lines@).push(line_text(i as nat, task@)));
            }
            if shown {
                lines.push(task.line(i));
            }
            i += 1;
        }
        lines
    }
}

} // verus!
