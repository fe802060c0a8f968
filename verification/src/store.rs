//! The store: every list under its unique name.

use vstd::prelude::*;
use vstd::string::StringExecFns;
use crate::list::{
    list_add, list_mark, list_remove, show_lines, texts, Filter, TaskView, TodoList,
};

verus! {

/// What a command can fail with. Neither is fatal: the store stays as it
/// was and nothing is to be saved.
#[derive(Clone, Copy, Debug, PartialEq, Eq, Structural)]
pub enum UserError {
    /// The command names a list that the store does not hold.
    ListNotFound,
    /// The arguments do not go together.
    InvalidCommand,
}

/// The message that reports an error to the user.
pub open spec fn message_text(error: UserError) -> Seq<char> {
    match error {
        UserError::ListNotFound => "List not found"@,
        UserError::InvalidCommand => "Invalid command"@,
    }
}

impl UserError {
    /// The message that reports this error.
    pub fn message(&self) -> (text: String)
        ensures
            text@ == message_text(*self),
    {
        match self {
            UserError::ListNotFound => String::from_str("List not found"),
            UserError::InvalidCommand => String::from_str("Invalid command"),
        }
    }
}

/// What a request to remove asks for, told from which of its two optional
/// arguments are there.
pub enum Removal {
    /// A name and an index: one task of that list.
    RemoveTask { list_name: String, item_number: usize },
    /// A name alone: the whole list.
    DeleteList { list_name: String },
    /// Neither: every list.
    ClearAll,
    /// An index without a name, which asks for nothing.
    Invalid,
}

/// The request that the two optional arguments stand for.
pub open spec fn removal_of(list_name: Option<String>, item_number: Option<usize>) -> Removal {
    match (list_name, item_number) {
        (Some(name), Some(number)) => Removal::RemoveTask { list_name: name, item_number: number },
        (Some(name), None) => Removal::DeleteList { list_name: name },
        (None, None) => Removal::ClearAll,
        (None, Some(_)) => Removal::Invalid,
    }
}

impl Removal {
    /// Tells the four shapes of a request to remove apart.
    pub fn resolve(list_name: Option<String>, item_number: Option<usize>) -> (request: Removal)
        ensures
            request == removal_of(list_name, item_number),
    {
        match (list_name, item_number) {
            (Some(name), Some(number)) => Removal::RemoveTask {
                list_name: name,
                item_number: number,
            },
            (Some(name), None) => Removal::DeleteList { list_name: name },
            (None, None) => Removal::ClearAll,
            (None, Some(_)) => Removal::Invalid,
        }
    }
}

/// Whether a request to remove succeeds on the given lists, and the error
/// where it does not.
pub open spec fn removal_result(lists: Map<Seq<char>, Seq<TaskView>>, request: Removal) -> Result<
    (),
    UserError,
> {
    match request {
        Removal::RemoveTask { list_name, item_number } => if lists.contains_key(list_name@) {
            Ok(())
        } else {
            Err(UserError::ListNotFound)
        },
        Removal::DeleteList { list_name } => Ok(()),
        Removal::ClearAll => Ok(()),
        Removal::Invalid => Err(UserError::InvalidCommand),
    }
}

/// The lists that a request to remove leaves.
pub open spec fn removal_lists(
    lists: Map<Seq<char>, Seq<TaskView>>,
    request: Removal,
) -> Map<Seq<char>, Seq<TaskView>> {
    match request {
        Removal::RemoveTask { list_name, item_number } => lists_remove_task(
            lists,
            list_name@,
            item_number as int,
        ),
        Removal::DeleteList { list_name } => lists.remove(list_name@),
        Removal::ClearAll => Map::empty(),
        Removal::Invalid => lists,
    }
}

/// The names, in order, that a request to remove leaves.
pub open spec fn removal_names(names: Seq<Seq<char>>, request: Removal) -> Seq<Seq<char>> {
    match request {
        Removal::RemoveTask { list_name, item_number } => names,
        Removal::DeleteList { list_name } => names.remove_value(list_name@),
        Removal::ClearAll => Seq::empty(),
        Removal::Invalid => names,
    }
}

/// The line that announces a list when every list is shown.
pub open spec fn header_text(name: Seq<char>) -> Seq<char> {
    seq!['L', 'i', 's', 't', ':', ' '] + name
}

/// What showing one list among all gives: its header, then its lines.
pub open spec fn list_block(name: Seq<char>, list: Seq<TaskView>, filter: Option<Filter>) -> Seq<
    Seq<char>,
> {
    seq![header_text(name)] + show_lines(list, filter)
}

/// What showing every list gives: the block of each list, one after the
/// other in the order of `names`, each list under the same filter.
pub open spec fn show_all_lines(
    names: Seq<Seq<char>>,
    lists: Map<Seq<char>, Seq<TaskView>>,
    filter: Option<Filter>,
) -> Seq<Seq<char>> {
    names.map_values(|name: Seq<char>| list_block(name, lists[name], filter)).flatten()
}

/// The lists after a task was appended to the named list, which is taken
/// as empty where no list has that name yet.
pub open spec fn lists_add(
    lists: Map<Seq<char>, Seq<TaskView>>,
    name: Seq<char>,
    item: Seq<char>,
) -> Map<Seq<char>, Seq<TaskView>> {
    lists.insert(
        name,
        list_add(
            if lists.contains_key(name) {
                lists[name]
            } else {
                Seq::empty()
            },
            item,
        ),
    )
}

/// The names after a task was appended to the named list: a new name goes
/// to the end.
pub open spec fn names_add(names: Seq<Seq<char>>, name: Seq<char>) -> Seq<Seq<char>> {
    if names.contains(name) {
        names
    } else {
        names.push(name)
    }
}

/// The lists with the flag of one task of the named list set; the lists
/// themselves where no list has that name.
pub open spec fn lists_mark(
    lists: Map<Seq<char>, Seq<TaskView>>,
    name: Seq<char>,
    index: int,
    completed: bool,
) -> Map<Seq<char>, Seq<TaskView>> {
    if lists.contains_key(name) {
        lists.insert(name, list_mark(lists[name], index, completed))
    } else {
        lists
    }
}

/// The lists with one task of the named list removed; the lists themselves
/// where no list has that name.
pub open spec fn lists_remove_task(
    lists: Map<Seq<char>, Seq<TaskView>>,
    name: Seq<char>,
    index: int,
) -> Map<Seq<char>, Seq<TaskView>> {
    if lists.contains_key(name) {
        lists.insert(name, list_remove(lists[name], index))
    } else {
        lists
    }
}

struct Entry {
    name: String,
    list: TodoList,
}

/// A mapping from list name to list. The lists are kept in the order in
/// which their names were first added.
pub struct Store {
    entries: Vec<Entry>,
}

spec fn names_of(entries: Seq<Entry>) -> Seq<Seq<char>> {
    entries.map_values(|entry: Entry| entry.name@)
}

spec fn lists_of(entries: Seq<Entry>) -> Map<Seq<char>, Seq<TaskView>> {
    Map::new(
        |name: Seq<char>| names_of(entries).contains(name),
        |name: Seq<char>| entries[names_of(entries).index_of(name)].list@,
    )
}

proof fn lemma_entry_is_mapped(entries: Seq<Entry>, i: int)
    requires
        names_of(entries).no_duplicates(),
        0 <= i < entries.len(),
    ensures
        lists_of(entries).contains_key(entries[i].name@),
        lists_of(entries)[entries[i].name@] == entries[i].list@,
{
    let names = names_of(entries);
    assert(names[i] == entries[i].name@);
    assert(names.contains(entries[i].name@));
    assert(names.index_of(entries[i].name@) == i);
}

proof fn lemma_list_replaced(before: Seq<Entry>, after: Seq<Entry>, i: int)
    requires
        names_of(before).no_duplicates(),
        0 <= i < before.len(),
        after.len() == before.len(),
        after[i].name@ == before[i].name@,
        forall|k: int| 0 <= k < before.len() && k != i ==> after[k] == before[k],
    ensures
        names_of(after) == names_of(before),
        lists_of(after) == lists_of(before).insert(before[i].name@, after[i].list@),
{
    assert(names_of(after) =~= names_of(before));
    assert forall|name: Seq<char>| lists_of(after).contains_key(name) implies lists_of(after)[name]
        == lists_of(before).insert(before[i].name@, after[i].list@)[name] by {
        let k = names_of(after).index_of(name);
        assert(names_of(after)[k] == name);
        assert(names_of(before)[k] == before[k].name@);
        assert(names_of(before)[i] == before[i].name@);
        lemma_entry_is_mapped(after, k);
        lemma_entry_is_mapped(before, k);
    }
    assert(lists_of(after) =~= lists_of(before).insert(before[i].name@, after[i].list@)) by {
        lemma_entry_is_mapped(before, i);
    }
}

proof fn lemma_entry_pushed(before: Seq<Entry>, entry: Entry)
    requires
        names_of(before).no_duplicates(),
        !names_of(before).contains(entry.name@),
    ensures
        names_of(before.push(entry)) == names_of(before).push(entry.name@),
        names_of(before.push(entry)).no_duplicates(),
        lists_of(before.push(entry)) == lists_of(before).insert(entry.name@, entry.list@),
{
    let after = before.push(entry);
    assert(names_of(after) =~= names_of(before).push(entry.name@));
    assert forall|k: int| 0 <= k < before.len() implies names_of(before)[k] != entry.name@ by {
        assert(names_of(before).contains(names_of(before)[k]));
    }
    assert forall|name: Seq<char>| lists_of(after).contains_key(name) implies lists_of(after)[name]
        == lists_of(before).insert(entry.name@, entry.list@)[name] by {
        let k = names_of(after).index_of(name);
        lemma_entry_is_mapped(after, k);
        if k < before.len() {
            lemma_entry_is_mapped(before, k);
        }
    }
    assert forall|name: Seq<char>| lists_of(before).contains_key(name) implies lists_of(
        after,
    ).contains_key(name) by {
        let k = names_of(before).index_of(name);
        assert(names_of(after)[k] == name);
    }
    assert(names_of(after)[before.len() as int] == entry.name@);
    assert(lists_of(after) =~= lists_of(before).insert(entry.name@, entry.list@));
}

proof fn lemma_entry_removed(before: Seq<Entry>, i: int)
    requires
        names_of(before).no_duplicates(),
        0 <= i < before.len(),
    ensures
        names_of(before.remove(i)) == names_of(before).remove_value(before[i].name@),
        names_of(before.remove(i)).no_duplicates(),
        lists_of(before.remove(i)) == lists_of(before).remove(before[i].name@),
{
    let after = before.remove(i);
    let name = before[i].name@;
    assert(names_of(before)[i] == name);
    names_of(before).index_of_first_ensures(name);
    assert(names_of(before).index_of_first(name) == Some(i));
    assert(names_of(after) =~= names_of(before).remove(i));
    assert forall|other: Seq<char>| lists_of(after).contains_key(other) implies {
        &&& other != name
        &&& lists_of(before).contains_key(other)
        &&& lists_of(after)[other] == lists_of(before)[other]
    } by {
        let k = names_of(after).index_of(other);
        let j = if k < i { k } else { k + 1 };
        assert(names_of(after)[k] == other);
        assert(names_of(before)[j] == other);
        lemma_entry_is_mapped(after, k);
        lemma_entry_is_mapped(before, j);
    }
    assert forall|other: Seq<char>|
        lists_of(before).contains_key(other) && other != name implies lists_of(
        after,
    ).contains_key(other) by {
        let j = names_of(before).index_of(other);
        let k = if j < i { j } else { j - 1 };
        assert(names_of(before)[j] == other);
        assert(names_of(after)[k] == other);
    }
    assert(lists_of(after) =~= lists_of(before).remove(name));
}

impl View for Store {
    type V = Map<Seq<char>, Seq<TaskView>>;

    closed spec fn view(&self) -> Map<Seq<char>, Seq<TaskView>> {
        lists_of(self.entries@)
    }
}

impl Store {
    /// The names of the lists, in the order in which the store keeps them.
    pub closed spec fn names(&self) -> Seq<Seq<char>> {
        names_of(self.entries@)
    }

    #[verifier::type_invariant]
    spec fn names_are_unique(&self) -> bool {
        self.names().no_duplicates()
    }

    /// The names are exactly the keys of the mapping.
    pub proof fn lemma_names_are_keys(&self)
        ensures
            self@.dom() == self.names().to_set(),
    {
    }

    /// The store without any list.
    pub fn new() -> (store: Store)
        ensures
            store@ == Map::<Seq<char>, Seq<TaskView>>::empty(),
            store.names() == Seq::<Seq<char>>::empty(),
    {
        Store { entries: Vec::new() }
    }

    fn position(&self, name: &str) -> (found: Option<usize>)
        ensures
            match found {
                Some(i) => i < self.entries.len() && self.entries[i as int].name@ == name@,
                None => !self.names().contains(name@),
            },
    {
        let key = String::from_str(name);
        let mut i: usize = 0;
        while i < self.entries.len()
            invariant
                i <= self.entries.len(),
                key@ == name@,
                forall|k: int| 0 <= k < i ==> self.entries[k].name@ != name@,
            decreases self.entries.len() - i,
        {
            if self.entries[i].name == key {
                return Some(i);
            }
            i += 1;
        }
        None
    }

    /// The list of the given name, if the store holds one.
    pub fn get(&self, list_name: &str) -> (found: Option<&TodoList>)
        ensures
            match found {
                Some(list) => self@.contains_key(list_name@) && list@ == self@[list_name@],
                None => !self@.contains_key(list_name@),
            },
    {
        proof {
            use_type_invariant(self);
        }
        match self.position(list_name) {
            Some(i) => {
                proof {
                    lemma_entry_is_mapped(self.entries@, i as int);
                }
                Some(&self.entries[i].list)
            },
            None => None,
        }
    }

    /// The names of the lists, in the order of the store. No name occurs
    /// twice.
    pub fn list_names(&self) -> (names: Vec<String>)
        ensures
            texts(names@) == self.names(),
            self.names().no_duplicates(),
    {
        proof {
            use_type_invariant(self);
        }
        let mut names: Vec<String> = Vec::new();
        let mut i: usize = 0;
        while i < self.entries.len()
            invariant
                i <= self.entries.len(),
                texts(names@) == self.names().take(i as int),
            decreases self.entries.len() - i,
        {
            let name = self.entries[i].name.clone();
            assert(self.names()[i as int] == name@);
            assert(texts(names@.push(name)) =~= texts(names@).push(name@));
            assert(self.names().take(i + 1) =~= self.names().take(i as int).push(name@));
            names.push(name);
            i += 1;
        }
        assert(self.names().take(i as int) == self.names());
        names
    }

    /// Puts a list under a name. A list that the store already holds under
    /// that name is replaced and keeps its place; a new name goes to the
    /// end.
    pub fn insert(&mut self, list_name: String, list: TodoList)
        ensures
            final(self)@ == old(self)@.insert(list_name@, list@),
            final(self).names() == names_add(old(self).names(), list_name@),
    {
        proof {
            use_type_invariant(&*self);
        }
        let found = self.position(list_name.as_str());
        let mut entries: Vec<Entry> = Vec::new();
        std::mem::swap(&mut entries, &mut self.entries);
        let ghost before = entries@;
        match found {
            Some(i) => {
                entries[i].list = list;
                proof {
                    lemma_entry_is_mapped(before, i as int);
                    lemma_list_replaced(before, entries@, i as int);
                }
            },
            None => {
                let entry = Entry { name: list_name, list };
                proof {
                    lemma_entry_pushed(before, entry);
                }
                entries.push(entry);
            },
        }
        self.entries = entries;
    }

    /// The lines of one list, or of every list. With a name, the lines of
    /// that list, and a failure where the store holds no such list. Without
    /// one, every list under its header, in the order of the store.
    pub fn show(&self, list_name: Option<&str>, filter: Option<Filter>) -> (result: Result<
        Vec<String>,
        UserError,
    >)
        ensures
            match list_name {
                Some(name) => match result {
                    Ok(lines) => self@.contains_key(name@) && texts(lines@) == show_lines(
                        self@[name@],
                        filter,
                    ),
                    Err(error) => !self@.contains_key(name@) && error == UserError::ListNotFound,
                },
                None => match result {
                    Ok(lines) => texts(lines@) == show_all_lines(self.names(), self@, filter),
                    Err(_) => false,
                },
            },
    {
        proof {
            use_type_invariant(self);
        }
        match list_name {
            Some(name) => match self.position(name) {
                Some(i) => {
                    proof {
                        lemma_entry_is_mapped(self.entries@, i as int);
                    }
                    Ok(self.entries[i].list.show(filter))
                },
                None => Err(UserError::ListNotFound),
            },
            None => {
                let mut lines: Vec<String> = Vec::new();
                let ghost block = |name: Seq<char>| list_block(name, self@[name], filter);
                let mut i: usize = 0;
                while i < self.entries.len()
                    invariant
                        i <= self.entries.len(),
                        self.names().no_duplicates(),
                        block == |name: Seq<char>| list_block(name, self@[name], filter),
                        texts(lines@) == self.names().take(i as int).map_values(block).flatten(),
                    decreases self.entries.len() - i,
                {
                    let entry = &self.entries[i];
                    proof {
                        reveal_strlit("List: ");
                    }
                    let mut header = String::from_str("List: ");
                    header.append(entry.name.as_str());
                    let mut shown = entry.list.show(filter);
                    proof {
                        // The block of this list goes behind those before it.
                        let names = self.names();
                        let done = names.take(i as int).map_values(block);
                        lemma_entry_is_mapped(self.entries@, i as int);
                        assert(header@ =~= header_text(names[i as int]));
                        assert(names.take(i + 1).map_values(block) == done.push(
                            block(names[i as int]),
                        ));
                        done.lemma_flatten_push(block(names[i as int]));
                        assert(texts(lines@.push(header) + shown@) == texts(lines@) + block(
                            names[i as int],
                        ));
                    }
                    lines.push(header);
                    lines.append(&mut shown);
                    i += 1;
                }
                assert(self.names().take(i as int) == self.names());
                Ok(lines)
            },
        }
    }

    /// Appends a task to the named list. A list that does not exist yet is
    /// created empty first, after the lists that are there.
    pub fn add(&mut self, list_name: String, item: String)
        ensures
            final(self)@ == lists_add(old(self)@, list_name@, item@),
            final(self).names() == names_add(old(self).names(), list_name@),
    {
        proof {
            use_type_invariant(&*self);
        }
        let found = self.position(list_name.as_str());
        let mut entries: Vec<Entry> = Vec::new();
        std::mem::swap(&mut entries, &mut self.entries);
        let ghost before = entries@;
        match found {
            Some(i) => {
                entries[i].list.add(item);
                proof {
                    lemma_entry_is_mapped(before, i as int);
                    lemma_list_replaced(before, entries@, i as int);
                }
            },
            None => {
                let mut list = TodoList::new();
                list.add(item);
                let entry = Entry { name: list_name, list };
                proof {
                    lemma_entry_pushed(before, entry);
                }
                entries.push(entry);
            },
        }
        self.entries = entries;
    }

    fn mark(&mut self, list_name: &str, item_number: usize, completed: bool) -> (result: Result<
        (),
        UserError,
    >)
        ensures
            result == if old(self)@.contains_key(list_name@) {
                Ok::<(), UserError>(())
            } else {
                Err::<(), UserError>(UserError::ListNotFound)
            },
            final(self)@ == lists_mark(old(self)@, list_name@, item_number as int, completed),
            final(self).names() == old(self).names(),
    {
        proof {
            use_type_invariant(&*self);
        }
        match self.position(list_name) {
            Some(i) => {
                let mut entries: Vec<Entry> = Vec::new();
                std::mem::swap(&mut entries, &mut self.entries);
                let ghost before = entries@;
                if completed {
                    entries[i].list.complete(item_number);
                } else {
                    entries[i].list.incomplete(item_number);
                }
                proof {
                    lemma_entry_is_mapped(before, i as int);
                    lemma_list_replaced(before, entries@, i as int);
                }
                self.entries = entries;
                Ok(())
            },
            None => Err(UserError::ListNotFound),
        }
    }

    /// Marks one task of the named list as completed. Where the store holds
    /// no list of that name, it fails and the store stays as it was; an
    /// index out of range is no failure and changes nothing.
    pub fn complete(&mut self, list_name: &str, item_number: usize) -> (result: Result<
        (),
        UserError,
    >)
        ensures
            result == if old(self)@.contains_key(list_name@) {
                Ok::<(), UserError>(())
            } else {
                Err::<(), UserError>(UserError::ListNotFound)
            },
            final(self)@ == lists_mark(old(self)@, list_name@, item_number as int, true),
            final(self).names() == old(self).names(),
    {
        self.mark(list_name, item_number, true)
    }

    /// Marks one task of the named list as not completed. Where the store
    /// holds no list of that name, it fails and the store stays as it was;
    /// an index out of range is no failure and changes nothing.
    pub fn incomplete(&mut self, list_name: &str, item_number: usize) -> (result: Result<
        (),
        UserError,
    >)
        ensures
            result == if old(self)@.contains_key(list_name@) {
                Ok::<(), UserError>(())
            } else {
                Err::<(), UserError>(UserError::ListNotFound)
            },
            final(self)@ == lists_mark(old(self)@, list_name@, item_number as int, false),
            final(self).names() == old(self).names(),
    {
        self.mark(list_name, item_number, false)
    }

    /// Deletes one task of the named list. Where the store holds no list of
    /// that name, it fails and the store stays as it was; an index out of
    /// range is no failure and changes nothing.
    pub fn remove_task(&mut self, list_name: &str, item_number: usize) -> (result: Result<
        (),
        UserError,
    >)
        ensures
            result == if old(self)@.contains_key(list_name@) {
                Ok::<(), UserError>(())
            } else {
                Err::<(), UserError>(UserError::ListNotFound)
            },
            final(self)@ == lists_remove_task(old(self)@, list_name@, item_number as int),
            final(self).names() == old(self).names(),
    {
        proof {
            use_type_invariant(&*self);
        }
        match self.position(list_name) {
            Some(i) => {
                let mut entries: Vec<Entry> = Vec::new();
                std::mem::swap(&mut entries, &mut self.entries);
                let ghost before = entries@;
                entries[i].list.remove(item_number);
                proof {
                    lemma_entry_is_mapped(before, i as int);
                    lemma_list_replaced(before, entries@, i as int);
                }
                self.entries = entries;
                Ok(())
            },
            None => Err(UserError::ListNotFound),
        }
    }

    /// Deletes the named list with all its tasks. The other lists keep
    /// their order. A name that the store does not hold changes nothing.
    pub fn delete_list(&mut self, list_name: &str)
        ensures
            final(self)@ == old(self)@.remove(list_name@),
            final(self).names() == old(self).names().remove_value(list_name@),
    {
        proof {
            use_type_invariant(&*self);
        }
        match self.position(list_name) {
            Some(i) => {
                let mut entries: Vec<Entry> = Vec::new();
                std::mem::swap(&mut entries, &mut self.entries);
                proof {
                    lemma_entry_removed(entries@, i as int);
                }
                entries.remove(i);
                self.entries = entries;
            },
            None => {
                proof {
                    self.names().index_of_first_ensures(list_name@);
                    assert(self@.remove(list_name@) =~= self@);
                }
            },
        }
    }

    /// Deletes every list.
    pub fn clear(&mut self)
        ensures
            final(self)@ == Map::<Seq<char>, Seq<TaskView>>::empty(),
            final(self).names() == Seq::<Seq<char>>::empty(),
    {
        self.entries = Vec::new();
    }

    /// Carries out a request to remove. It fails, and leaves the store as
    /// it was, where the request names a task of a list that the store does
    /// not hold, or is invalid.
    pub fn apply_removal(&mut self, request: &Removal) -> (result: Result<(), UserError>)
        ensures
            result == removal_result(old(self)@, *request),
            final(self)@ == removal_lists(old(self)@, *request),
            final(self).names() == removal_names(old(self).names(), *request),
    {
        match request {
            Removal::RemoveTask { list_name, item_number } => self.remove_task(
                list_name.as_str(),
                *item_number,
            ),
            Removal::DeleteList { list_name } => {
                self.delete_list(list_name.as_str());
                Ok(())
            },
            Removal::ClearAll => {
                self.clear();
                Ok(())
            },
            Removal::Invalid => Err(UserError::InvalidCommand),
        }
    }

    /// Removes what the two optional arguments ask for: with a name and an
    /// index one task, with a name alone the whole list, with neither every
    /// list. An index without a name is an invalid request.
    pub fn remove(&mut self, list_name: Option<String>, item_number: Option<usize>) -> (result:
        Result<(), UserError>)
        ensures
            result == removal_result(old(self)@, removal_of(list_name, item_number)),
            final(self)@ == removal_lists(old(self)@, removal_of(list_name, item_number)),
            final(self).names() == removal_names(
                old(self).names(),
                removal_of(list_name, item_number),
            ),
    {
        let request = Removal::resolve(list_name, item_number);
        self.apply_removal(&request)
    }
}

} // verus!
