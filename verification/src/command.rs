//! Commands on a store: what each one shows, what it changes, and whether
//! the store is to be saved afterwards.

use vstd::prelude::*;
use crate::list::{show_lines, texts, Filter, TaskView};
use crate::store::{
    lists_add, lists_mark, message_text, names_add, removal_lists, removal_names, removal_of,
    removal_result, show_all_lines, Store, UserError,
};

verus! {

/// One command of the user.
#[allow(inconsistent_fields)]
pub enum Command {
    /// Show one list, or every list where no name is given.
    Show { list_name: Option<String>, filter: Option<Filter> },
    /// Append a task to a list, which is created where it does not exist.
    Add { list_name: String, item: String },
    /// Mark a task as completed.
    Complete { list_name: String, item_number: usize },
    /// Mark a task as not completed.
    Incomplete { list_name: String, item_number: usize },
    /// Remove a task, a list, or every list.
    Remove { list_name: Option<String>, item_number: Option<usize> },
}

/// What a command leaves for its caller to do.
pub struct Reply {
    /// The lines to print, in order.
    pub lines: Vec<String>,
    /// Whether the store is to be saved.
    pub persist: bool,
}

/// The error that a command fails with on the given lists, if any.
pub open spec fn command_error(lists: Map<Seq<char>, Seq<TaskView>>, command: Command) -> Option<
    UserError,
> {
    match command {
        Command::Show { list_name: Some(name), filter } => if lists.contains_key(name@) {
            None
        } else {
            Some(UserError::ListNotFound)
        },
        Command::Show { list_name: None, filter } => None,
        Command::Add { list_name, item } => None,
        Command::Complete { list_name, item_number } => if lists.contains_key(list_name@) {
            None
        } else {
            Some(UserError::ListNotFound)
        },
        Command::Incomplete { list_name, item_number } => if lists.contains_key(list_name@) {
            None
        } else {
            Some(UserError::ListNotFound)
        },
        Command::Remove { list_name, item_number } => match removal_result(
            lists,
            removal_of(list_name, item_number),
        ) {
            Ok(_) => None,
            Err(error) => Some(error),
        },
    }
}

/// The lines that a command prints: the message of its error where it
/// fails, the lines shown where it shows, and none otherwise.
pub open spec fn reply_lines(
    names: Seq<Seq<char>>,
    lists: Map<Seq<char>, Seq<TaskView>>,
    command: Command,
) -> Seq<Seq<char>> {
    match command_error(lists, command) {
        Some(error) => seq![message_text(error)],
        None => match command {
            Command::Show { list_name: Some(name), filter } => show_lines(lists[name@], filter),
            Command::Show { list_name: None, filter } => show_all_lines(names, lists, filter),
            _ => Seq::empty(),
        },
    }
}

/// Whether the store is saved after a command: after every command that
/// may change it and does not fail.
pub open spec fn persists(lists: Map<Seq<char>, Seq<TaskView>>, command: Command) -> bool {
    command_error(lists, command) is None && !(command is Show)
}

/// The lists after a command.
pub open spec fn lists_after(lists: Map<Seq<char>, Seq<TaskView>>, command: Command) -> Map<
    Seq<char>,
    Seq<TaskView>,
> {
    match command {
        Command::Show { list_name, filter } => lists,
        Command::Add { list_name, item } => lists_add(lists, list_name@, item@),
        Command::Complete { list_name, item_number } => lists_mark(
            lists,
            list_name@,
            item_number as int,
            true,
        ),
        Command::Incomplete { list_name, item_number } => lists_mark(
            lists,
            list_name@,
            item_number as int,
            false,
        ),
        Command::Remove { list_name, item_number } => removal_lists(
            lists,
            removal_of(list_name, item_number),
        ),
    }
}

/// The names of the lists, in order, after a command.
pub open spec fn names_after(names: Seq<Seq<char>>, command: Command) -> Seq<Seq<char>> {
    match command {
        Command::Add { list_name, item } => names_add(names, list_name@),
        Command::Remove { list_name, item_number } => removal_names(
            names,
            removal_of(list_name, item_number),
        ),
        _ => names,
    }
}

fn report(error: UserError) -> (reply: Reply)
    ensures
        texts(reply.lines@) == seq![message_text(error)],
        !reply.persist,
{
    let mut lines: Vec<String> = Vec::new();
    lines.push(error.message());
    assert(texts(lines@) =~= seq![message_text(error)]);
    Reply { lines, persist: false }
}

fn saved(result: Result<(), UserError>) -> (reply: Reply)
    ensures
        texts(reply.lines@) == match result {
            Ok(_) => Seq::<Seq<char>>::empty(),
            Err(error) => seq![message_text(error)],
        },
        reply.persist == (result is Ok),
{
    match result {
        Ok(_) => {
            let lines: Vec<String> = Vec::new();
            assert(texts(lines@) =~= Seq::<Seq<char>>::empty());
            Reply { lines, persist: true }
        },
        Err(error) => report(error),
    }
}

impl Store {
    /// Carries out one command. A command that fails leaves the store as it
    /// was, prints the message of its error and saves nothing. One that
    /// shows prints what it shows. Every other command that does not fail
    /// has the store saved, whether or not an index was in range.
    pub fn run(&mut self, command: Command) -> (reply: Reply)
        ensures
            texts(reply.lines@) == reply_lines(old(self).names(), old(self)@, command),
            reply.persist == persists(old(self)@, command),
            final(self)@ == lists_after(old(self)@, command),
            final(self).names() == names_after(old(self).names(), command),
    {
        match command {
            Command::Show { list_name, filter } => {
                let shown = match &list_name {
                    Some(name) => self.show(Some(name.as_str()), filter),
                    None => self.show(None, filter),
                };
                match shown {
                    Ok(lines) => Reply { lines, persist: false },
                    Err(error) => report(error),
                }
            },
            Command::Add { list_name, item } => {
                self.add(list_name, item);
                saved(Ok(()))
            },
            Command::Complete { list_name, item_number } => {
                let result = self.complete(list_name.as_str(), item_number);
                saved(result)
            },
            Command::Incomplete { list_name, item_number } => {
                let result = self.incomplete(list_name.as_str(), item_number);
                saved(result)
            },
            Command::Remove { list_name, item_number } => {
                let result = self.remove(list_name, item_number);
                saved(result)
            },
        }
    }
}

} // verus!
