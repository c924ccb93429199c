//! The list of records and the rules by which it grows, shrinks and is
//! searched.

use crate::error::{ErrorView, TodoError};
use crate::file::{
    after_steps, clear_plan, io_outcome, io_result, lemma_clear_plan_empties,
    lemma_replace_plan_overwrites, replace_plan, replace_steps, step_views, FileState, FileStep,
};
use crate::fingerprint::{calculate_hash, hash_of};
use crate::item::{ItemView, TodoItem};
use crate::json::{
    decode_records, encode_records, item_views, lemma_empty_list_json, records_json, records_of,
};
use crate::text::{
    contains, lemma_occurs_in_the_middle, lowercase, lowercase_of, occurs_in, same_text, trimmed,
    trimmed_of,
};
use vstd::prelude::*;
use vstd::string::{StrSliceExecFns, StringExecFns};
use vstd::utf8::encode_utf8;

verus! {

/// Whether a record's name answers a search: the keyword occurs in the name
/// when both are taken in lower case.
pub open spec fn name_matches(name: Seq<char>, keyword: Seq<char>) -> bool {
    occurs_in(lowercase_of(keyword), lowercase_of(name))
}

/// The records whose names answer a search, in the order of the list.
pub open spec fn matching(items: Seq<ItemView>, keyword: Seq<char>) -> Seq<ItemView> {
    items.filter(|item: ItemView| name_matches(item.name, keyword))
}

/// `index` is the place of the first record of `items` that is called `name`.
pub open spec fn is_first_named(items: Seq<ItemView>, name: Seq<char>, index: int) -> bool {
    &&& 0 <= index < items.len()
    &&& items[index].name == name
    &&& forall|earlier: int| 0 <= earlier < index ==> (#[trigger] items[earlier]).name != name
}

/// No record of `items` is called `name`.
pub open spec fn none_named(items: Seq<ItemView>, name: Seq<char>) -> bool {
    forall|index: int| 0 <= index < items.len() ==> (#[trigger] items[index]).name != name
}

/// The list after an attempt to add `item`: the record comes last, unless
/// the list already holds a record with the same name, content and priority.
pub open spec fn with_added(items: Seq<ItemView>, item: ItemView) -> Seq<ItemView> {
    if items.contains(item) {
        items
    } else {
        items.push(item)
    }
}

/// The list without the first record that is called `name`; the list itself
/// if no record is called so.
pub open spec fn without_first_named(items: Seq<ItemView>, name: Seq<char>) -> Seq<ItemView> {
    if none_named(items, name) {
        items
    } else {
        items.remove(choose|index: int| is_first_named(items, name, index))
    }
}

/// The views of the records that a list of borrowed records points to.
pub open spec fn borrowed_views(items: Seq<&TodoItem>) -> Seq<ItemView> {
    items.map_values(|item: &TodoItem| item@)
}

/// The message of a file whose content is no list of records: what the
/// parser said, then the content itself.
pub open spec fn format_message(parser: Seq<char>, content: Seq<char>) -> Seq<char> {
    "invalid todo list: "@ + parser + " (content: "@ + content + ")"@
}

/// What opening a file with the given content gives: no records for a
/// content that is empty or white space only, else the records that the
/// content stands for, else a format error.
pub open spec fn opened(content: Seq<char>) -> Result<Seq<ItemView>, ErrorView> {
    if trimmed_of(content).len() == 0 {
        Ok(Seq::empty())
    } else {
        match records_of(content) {
            Ok(records) => Ok(records),
            Err(message) => Err(ErrorView::Format(format_message(message, content))),
        }
    }
}

/// The bytes that saving a list writes: its JSON text in UTF-8. A list that
/// cannot be written as JSON gives an I/O error with the writer's message.
pub open spec fn payload_of(records: Seq<ItemView>) -> Result<Seq<u8>, ErrorView> {
    match records_json(records) {
        Ok(json) => Ok(encode_utf8(json)),
        Err(message) => Err(ErrorView::Io(message)),
    }
}

/// The records with the given name, in the order of the list.
pub open spec fn named(items: Seq<ItemView>, name: Seq<char>) -> Seq<ItemView> {
    items.filter(|item: ItemView| item.name == name)
}

/// The records of a todo list, in the order in which they were added.
pub struct TodoList {
    buffer: Vec<TodoItem>,
}

impl View for TodoList {
    type V = Seq<ItemView>;

    closed spec fn view(&self) -> Seq<ItemView> {
        item_views(self.buffer@)
    }
}

impl Default for TodoList {
    /// A list without records.
    fn default() -> (list: TodoList)
        ensures
            list@ == Seq::<ItemView>::empty(),
    {
        TodoList::new()
    }
}

impl TodoList {
    /// A list without records.
    pub fn new() -> (list: TodoList)
        ensures
            list@ == Seq::<ItemView>::empty(),
    {
        let list = TodoList { buffer: Vec::new() };
        assert(list@ =~= Seq::<ItemView>::empty());
        list
    }

    /// Builds the list that the content of a backing file stands for.
    pub fn open(content: &str) -> (outcome: Result<TodoList, TodoError>)
        ensures
            match outcome {
                Ok(list) => opened(content@) == Ok::<Seq<ItemView>, ErrorView>(list@),
                Err(error) => opened(content@) == Err::<Seq<ItemView>, ErrorView>(error@),
            },
    {
        if trimmed(content).is_empty() {
            return Ok(TodoList::new());
        }
        match decode_records(content) {
            Ok(buffer) => Ok(TodoList { buffer }),
            Err(parser) => {
                let mut message = String::from_str("invalid todo list: ");
                message.append(parser.as_str());
                message.append(" (content: ");
                message.append(content);
                message.append(")");
                Err(TodoError::Format(message))
            },
        }
    }

    /// The number of records.
    pub fn len(&self) -> (count: usize)
        ensures
            count == self@.len(),
    {
        self.buffer.len()
    }

    /// Whether the list holds no record.
    pub fn is_empty(&self) -> (empty: bool)
        ensures
            empty == (self@.len() == 0),
    {
        self.buffer.len() == 0
    }

    /// The records in the order of the list.
    pub fn analysis(&self) -> (items: &Vec<TodoItem>)
        ensures
            item_views(items@) == self@,
    {
        &self.buffer
    }

    /// Adds a record at the end unless the list already holds one with the
    /// same name, content and priority. Says whether the record was added.
    pub fn add_item(&mut self, item: TodoItem) -> (added: bool)
        ensures
            added == !old(self)@.contains(item@),
            final(self)@ == with_added(old(self)@, item@),
            final(self)@.len() == old(self)@.len() + if added {
                1int
            } else {
                0int
            },
    {
        let hash = calculate_hash(&item);
        let mut index: usize = 0;
        while index < self.buffer.len()
            invariant
                index <= self.buffer.len(),
                *self == *old(self),
                hash == hash_of(item@),
                forall|earlier: int| 0 <= earlier < index ==> (#[trigger] self@[earlier]) != item@,
            decreases self.buffer.len() - index,
        {
            if calculate_hash(&self.buffer[index]) == hash && self.buffer[index] == item {
                assert(self@[index as int] == item@);
                return false;
            }
            index += 1;
        }
        self.buffer.push(item);
        assert(self@ =~= old(self)@.push(item@));
        true
    }

    /// Removes the first record that is called exactly `name`; the records
    /// after it move up by one place. Without such a record nothing changes.
    pub fn del_by_name(&mut self, name: String)
        ensures
            none_named(old(self)@, name@) ==> final(self)@ == old(self)@,
            forall|index: int|
                is_first_named(old(self)@, name@, index) ==> final(self)@ == old(self)@.remove(
                    index,
                ),
            final(self)@ == without_first_named(old(self)@, name@),
    {
        let mut index: usize = 0;
        while index < self.buffer.len()
            invariant
                index <= self.buffer.len(),
                *self == *old(self),
                forall|earlier: int|
                    0 <= earlier < index ==> (#[trigger] self@[earlier]).name != name@,
            decreases self.buffer.len() - index,
        {
            if same_text(self.buffer[index].name(), name.as_str()) {
                assert(is_first_named(old(self)@, name@, index as int));
                let _ = self.buffer.remove(index);
                assert(self@ =~= old(self)@.remove(index as int));
                assert(!none_named(old(self)@, name@)) by {
                    assert(old(self)@[index as int].name == name@);
                }
                proof {
                    let chosen = choose|place: int| is_first_named(old(self)@, name@, place);
                    lemma_first_named_is_unique(old(self)@, name@, index as int, chosen);
                }
                return ;
            }
            index += 1;
        }
    }

    /// The records whose names hold `keyword`, letter case set aside, in the
    /// order of the list.
    pub fn find_items_by_name(&self, keyword: &str) -> (found: Vec<&TodoItem>)
        ensures
            borrowed_views(found@) == matching(self@, keyword@),
    {
        let keyword_lower = lowercase(keyword);
        let mut found: Vec<&TodoItem> = Vec::new();
        let mut index: usize = 0;
        proof {
            reveal(Seq::filter);
            assert(self@.take(0) =~= Seq::<ItemView>::empty());
            assert(borrowed_views(found@) =~= matching(self@.take(0), keyword@));
        }
        while index < self.buffer.len()
            invariant
                index <= self.buffer.len(),
                keyword_lower@ == lowercase_of(keyword@),
                borrowed_views(found@) == matching(self@.take(index as int), keyword@),
            decreases self.buffer.len() - index,
        {
            let item = &self.buffer[index];
            let name_lower = lowercase(item.name());
            proof {
                lemma_matching_step(self@.take(index as int), item@, keyword@);
                assert(self@.take(index + 1) =~= self@.take(index as int).push(item@));
            }
            if contains(name_lower.as_str(), keyword_lower.as_str()) {
                let ghost before = borrowed_views(found@);
                found.push(item);
                assert(borrowed_views(found@) =~= before.push(item@));
            }
            index += 1;
        }
        assert(self@.take(index as int) =~= self@);
        found
    }

    /// Ends a clear. `file` is what became of the steps of `clear_steps` on
    /// the backing file: if they were all performed the list gives up its
    /// records, if one of them failed the list keeps them and the failure is
    /// passed on as an I/O error.
    pub fn clear(&mut self, file: Result<(), String>) -> (outcome: Result<(), TodoError>)
        ensures
            match outcome {
                Ok(_) => io_result(file) == Ok::<(), ErrorView>(()),
                Err(error) => io_result(file) == Err::<(), ErrorView>(error@),
            },
            file is Ok ==> final(self)@ == Seq::<ItemView>::empty(),
            file is Err ==> final(self)@ == old(self)@,
    {
        let outcome = io_outcome(file);
        if outcome.is_ok() {
            self.buffer.clear();
            assert(self@ =~= Seq::<ItemView>::empty());
        }
        outcome
    }

    /// The steps that bring the backing file in line with the list: the
    /// whole file is replaced by the JSON text of the records.
    pub fn save_to_file(&self) -> (outcome: Result<Vec<FileStep>, TodoError>)
        ensures
            match outcome {
                Ok(steps) => exists|payload: Seq<u8>|
                    payload_of(self@) == Ok::<Seq<u8>, ErrorView>(payload) && step_views(steps@)
                        == #[trigger] replace_plan(payload),
                Err(error) => payload_of(self@) == Err::<Seq<u8>, ErrorView>(error@),
            },
    {
        match encode_records(&self.buffer) {
            Ok(json) => {
                let payload = json.as_str().as_bytes_vec();
                let steps = replace_steps(payload);
                assert(payload_of(self@) == Ok::<Seq<u8>, ErrorView>(payload@));
                Ok(steps)
            },
            Err(message) => Err(TodoError::Io(message)),
        }
    }

    /// The first record whose name holds `keyword`, letter case set aside.
    pub fn find_first_by_name(&self, keyword: &str) -> (first: Option<&TodoItem>)
        ensures
            match first {
                Some(item) => matching(self@, keyword@).len() > 0 && item@ == matching(
                    self@,
                    keyword@,
                )[0],
                None => matching(self@, keyword@).len() == 0,
            },
    {
        let found = self.find_items_by_name(keyword);
        if found.len() == 0 {
            None
        } else {
            Some(found[0])
        }
    }
}

/// A search goes through the list record by record: a record that answers
/// it comes after those found before it, any other leaves them as they are.
pub proof fn lemma_matching_step(items: Seq<ItemView>, next: ItemView, keyword: Seq<char>)
    ensures
        matching(items.push(next), keyword) == if name_matches(next.name, keyword) {
            matching(items, keyword).push(next)
        } else {
            matching(items, keyword)
        },
{
    reveal(Seq::filter);
    assert(items.push(next).drop_last() =~= items);
}

/// A record that equals a record of the list in name, content and priority
/// is turned away: the list stays as it is, and as long as it was.
pub proof fn lemma_duplicate_is_rejected(items: Seq<ItemView>, item: ItemView, index: int)
    requires
        0 <= index < items.len(),
        items[index].name == item.name,
        items[index].content == item.content,
        items[index].priority == item.priority,
    ensures
        items.contains(item),
        with_added(items, item) == items,
        with_added(items, item).len() == items.len(),
{
    assert(items[index] == item);
}

/// A record that differs from every record of the list in its name, its
/// content or its priority is added at the end.
pub proof fn lemma_new_record_is_added(items: Seq<ItemView>, item: ItemView)
    requires
        forall|index: int|
            0 <= index < items.len() ==> (#[trigger] items[index]).name != item.name
                || items[index].content != item.content || items[index].priority != item.priority,
    ensures
        !items.contains(item),
        with_added(items, item) == items.push(item),
        with_added(items, item).len() == items.len() + 1,
{
    if items.contains(item) {
        let index = choose|index: int| 0 <= index < items.len() && items[index] == item;
        assert(items[index].name == item.name);
    }
}

/// Adding a record a second time changes nothing: after the first attempt
/// the list holds it, whether it was added then or earlier.
pub proof fn lemma_second_add_is_rejected(items: Seq<ItemView>, item: ItemView)
    ensures
        with_added(items, item).contains(item),
        with_added(with_added(items, item), item) == with_added(items, item),
{
    if !items.contains(item) {
        let grown = items.push(item);
        assert(grown[items.len() as int] == item);
    }
}

/// The message of a format error holds both what the parser said and the
/// content that it was given.
pub proof fn lemma_format_message_quotes(parser: Seq<char>, content: Seq<char>)
    ensures
        occurs_in(parser, format_message(parser, content)),
        occurs_in(content, format_message(parser, content)),
{
    let head = "invalid todo list: "@;
    let middle = " (content: "@;
    let tail = ")"@;
    lemma_occurs_in_the_middle(head, parser, middle + content + tail);
    assert(head + parser + (middle + content + tail) =~= format_message(parser, content));
    lemma_occurs_in_the_middle(head + parser + middle, content, tail);
    assert(head + parser + middle + content + tail =~= format_message(parser, content));
}

/// A name has at most one first record.
pub proof fn lemma_first_named_is_unique(
    items: Seq<ItemView>,
    name: Seq<char>,
    one: int,
    other: int,
)
    requires
        is_first_named(items, name, one),
        is_first_named(items, name, other),
    ensures
        one == other,
{
    if one < other {
        assert(items[one].name != name);
    } else if other < one {
        assert(items[other].name != name);
    }
}

/// Removing the first record of a name takes exactly that record away: the
/// list is one shorter, every other record keeps its content and its place
/// among the others, and one record fewer is called by that name.
pub proof fn lemma_removal_takes_one(items: Seq<ItemView>, name: Seq<char>, index: int)
    requires
        is_first_named(items, name, index),
    ensures
        items.remove(index).len() == items.len() - 1,
        forall|place: int| 0 <= place < index ==> #[trigger] items.remove(index)[place] == items[place],
        forall|place: int|
            index <= place < items.len() - 1 ==> #[trigger] items.remove(index)[place] == items[place
                + 1],
        named(items.remove(index), name).len() == named(items, name).len() - 1,
        named(items.remove(index), name) == named(items, name).drop_first(),
{
    let by_name = |item: ItemView| item.name == name;
    let before = items.take(index);
    let after = items.skip(index + 1);
    let one = seq![items[index]];
    assert(items.remove(index) =~= before + after);
    assert(items =~= before + one + after);
    Seq::filter_distributes_over_add(before, after, by_name);
    Seq::filter_distributes_over_add(before, one, by_name);
    Seq::filter_distributes_over_add(before + one, after, by_name);
    before.lemma_all_neg_filter_empty(by_name);
    assert(one.filter(by_name) =~= one) by {
        reveal_with_fuel(Seq::filter, 2);
        assert(one.drop_last() =~= Seq::<ItemView>::empty());
    }
    assert(named(items, name) =~= one + after.filter(by_name));
    assert(named(items.remove(index), name) =~= after.filter(by_name));
    assert((one + after.filter(by_name)).drop_first() =~= after.filter(by_name));
}

/// A list together with its backing file.
pub struct StoreState {
    pub records: Seq<ItemView>,
    pub file: FileState,
}

/// The store after a clear that met no failure: no records, and the file
/// after the steps that empty it.
pub open spec fn cleared(state: StoreState) -> StoreState {
    StoreState { records: Seq::empty(), file: after_steps(state.file, clear_plan()) }
}

/// The store after a save that met no failure: the same records, and the
/// file after the steps that replace its content by the list's bytes.
pub open spec fn saved(state: StoreState) -> StoreState
    recommends
        payload_of(state.records) is Ok,
{
    StoreState {
        records: state.records,
        file: after_steps(state.file, replace_plan(payload_of(state.records)->Ok_0)),
    }
}

/// A save leaves in the file the JSON text of the list and nothing of what
/// the file held before.
pub proof fn lemma_save_replaces_content(state: StoreState)
    requires
        payload_of(state.records) is Ok,
    ensures
        saved(state).records == state.records,
        records_json(state.records) is Ok,
        saved(state).file.bytes == encode_utf8(records_json(state.records)->Ok_0),
{
    lemma_replace_plan_overwrites(state.file, payload_of(state.records)->Ok_0);
}

/// Clearing is idempotent: a second clear changes nothing. After one clear
/// as after two, the list is empty, the file holds no bytes, and the next
/// save writes the empty JSON array.
pub proof fn lemma_clear_is_idempotent(state: StoreState)
    ensures
        cleared(cleared(state)) == cleared(state),
        cleared(state).records.len() == 0,
        cleared(state).file.bytes.len() == 0,
        payload_of(cleared(state).records) == Ok::<Seq<u8>, ErrorView>(encode_utf8("[]"@)),
        saved(cleared(state)).file.bytes == encode_utf8("[]"@),
        saved(cleared(cleared(state))).file.bytes == encode_utf8("[]"@),
{
    lemma_clear_plan_empties(state.file);
    lemma_clear_plan_empties(cleared(state).file);
    lemma_empty_list_json();
    lemma_replace_plan_overwrites(cleared(state).file, encode_utf8("[]"@));
}

} // verus!
