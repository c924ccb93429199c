//! The JSON form of a list of records.
//!
//! A list is written as one JSON array, each record as an object with the
//! members `name`, `content` and `priority`, in that order and without white
//! space between the tokens. Reading accepts any JSON array of objects that
//! hold these three members; other members are passed over. Splitting the
//! text into elements and members, and reading and writing single strings and
//! numbers, is the work of `serde_json`.

use crate::decimal::{decimal, decimal_string};
use crate::item::{ItemView, TodoItem};
use crate::text::same_text;
use std::collections::BTreeMap;
use vstd::prelude::*;
use vstd::string::StringExecFns;

verus! {

/// What reading `text` as a JSON array gives: the text of each element in
/// order, or the parser's message when `text` is no JSON array.
pub uninterp spec fn elements_of(text: Seq<char>) -> Result<Seq<Seq<char>>, Seq<char>>;

/// What reading `text` as a JSON object gives: each member as its key and the
/// text of its value, or the parser's message when `text` is no JSON object.
pub uninterp spec fn members_of(text: Seq<char>) -> Result<
    Seq<(Seq<char>, Seq<char>)>,
    Seq<char>,
>;

/// What reading `text` as a JSON string gives: the string it stands for, or
/// the parser's message.
pub uninterp spec fn string_of(text: Seq<char>) -> Result<Seq<char>, Seq<char>>;

/// What reading `text` as a JSON number that fits sixteen signed bits gives,
/// or the parser's message.
pub uninterp spec fn integer_of(text: Seq<char>) -> Result<i16, Seq<char>>;

/// The JSON string literal that `serde_json` writes for `text`, or its
/// message when it refuses.
pub uninterp spec fn quoted_of(text: Seq<char>) -> Result<Seq<char>, Seq<char>>;

/// The characters of a text, or of the message that came in its place.
pub open spec fn text_outcome(outcome: Result<String, String>) -> Result<Seq<char>, Seq<char>> {
    match outcome {
        Ok(text) => Ok(text@),
        Err(message) => Err(message@),
    }
}

/// The characters of each text of a list.
pub open spec fn texts(list: Seq<String>) -> Seq<Seq<char>> {
    list.map_values(|text: String| text@)
}

/// The characters of each key and value of a list of members.
pub open spec fn member_texts(list: Seq<(String, String)>) -> Seq<(Seq<char>, Seq<char>)> {
    list.map_values(|member: (String, String)| (member.0@, member.1@))
}

/// Calls `serde_json::from_str` for a list of raw values and hands out the
/// text of each. The result is only named.
#[verifier::external_body]
fn split_array(text: &str) -> (parts: Result<Vec<String>, String>)
    ensures
        match parts {
            Ok(list) => elements_of(text@) == Ok::<Seq<Seq<char>>, Seq<char>>(texts(list@)),
            Err(message) => elements_of(text@) == Err::<Seq<Seq<char>>, Seq<char>>(message@),
        },
{
    match serde_json::from_str::<Vec<Box<serde_json::value::RawValue>>>(text) {
        Ok(raw) => Ok(raw.into_iter().map(|value| value.get().to_string()).collect()),
        Err(error) => Err(error.to_string()),
    }
}

/// Calls `serde_json::from_str` for a map from keys to raw values and hands
/// out each key with the text of its value, in the order of the keys. The
/// result is only named.
#[verifier::external_body]
fn split_object(text: &str) -> (parts: Result<Vec<(String, String)>, String>)
    ensures
        match parts {
            Ok(list) => members_of(text@) == Ok::<Seq<(Seq<char>, Seq<char>)>, Seq<char>>(
                member_texts(list@),
            ),
            Err(message) => members_of(text@) == Err::<Seq<(Seq<char>, Seq<char>)>, Seq<char>>(
                message@,
            ),
        },
{
    match serde_json::from_str::<BTreeMap<String, Box<serde_json::value::RawValue>>>(text) {
        Ok(raw) => Ok(raw.into_iter().map(|(key, value)| (key, value.get().to_string())).collect()),
        Err(error) => Err(error.to_string()),
    }
}

/// Calls `serde_json::from_str` for a `String`. The result is only named.
#[verifier::external_body]
fn read_string(text: &str) -> (value: Result<String, String>)
    ensures
        text_outcome(value) == string_of(text@),
{
    match serde_json::from_str::<String>(text) {
        Ok(value) => Ok(value),
        Err(error) => Err(error.to_string()),
    }
}

/// Calls `serde_json::from_str` for an `i16`. The result is only named.
#[verifier::external_body]
fn read_integer(text: &str) -> (value: Result<i16, String>)
    ensures
        match value {
            Ok(number) => integer_of(text@) == Ok::<i16, Seq<char>>(number),
            Err(message) => integer_of(text@) == Err::<i16, Seq<char>>(message@),
        },
{
    match serde_json::from_str::<i16>(text) {
        Ok(value) => Ok(value),
        Err(error) => Err(error.to_string()),
    }
}

/// Calls `serde_json::to_string` on a string slice. The result is only named.
#[verifier::external_body]
fn write_string(text: &str) -> (literal: Result<String, String>)
    ensures
        text_outcome(literal) == quoted_of(text@),
{
    match serde_json::to_string(text) {
        Ok(literal) => Ok(literal),
        Err(error) => Err(error.to_string()),
    }
}

/// The text of the value of the first member of `members` whose key is `key`.
pub open spec fn member_value(members: Seq<(Seq<char>, Seq<char>)>, key: Seq<char>) -> Option<
    Seq<char>,
>
    decreases members.len(),
{
    if members.len() == 0 {
        None
    } else if members[0].0 == key {
        Some(members[0].1)
    } else {
        member_value(members.drop_first(), key)
    }
}

/// The message for an object that lacks the member `key`.
pub open spec fn missing_member(key: Seq<char>) -> Seq<char> {
    "missing field `"@ + key + "`"@
}

/// The record that a list of members stands for: `name` and `content` must
/// be strings and `priority` a number of sixteen signed bits. The first of the
/// three that is missing or of the wrong kind, in this order, gives the error.
pub open spec fn record_of_members(members: Seq<(Seq<char>, Seq<char>)>) -> Result<
    ItemView,
    Seq<char>,
> {
    match member_value(members, "name"@) {
        None => Err(missing_member("name"@)),
        Some(name_text) => match string_of(name_text) {
            Err(message) => Err(message),
            Ok(name) => match member_value(members, "content"@) {
                None => Err(missing_member("content"@)),
                Some(content_text) => match string_of(content_text) {
                    Err(message) => Err(message),
                    Ok(content) => match member_value(members, "priority"@) {
                        None => Err(missing_member("priority"@)),
                        Some(priority_text) => match integer_of(priority_text) {
                            Err(message) => Err(message),
                            Ok(priority) => Ok(ItemView { name, content, priority }),
                        },
                    },
                },
            },
        },
    }
}

/// The record that the text of one array element stands for.
pub open spec fn record_of(text: Seq<char>) -> Result<ItemView, Seq<char>> {
    match members_of(text) {
        Err(message) => Err(message),
        Ok(members) => record_of_members(members),
    }
}

/// The records that the texts of the elements stand for, or the error of the
/// first element that stands for none.
pub open spec fn records_of_elements(elements: Seq<Seq<char>>) -> Result<
    Seq<ItemView>,
    Seq<char>,
>
    decreases elements.len(),
{
    if elements.len() == 0 {
        Ok(Seq::empty())
    } else {
        match records_of_elements(elements.drop_last()) {
            Err(message) => Err(message),
            Ok(records) => match record_of(elements.last()) {
                Err(message) => Err(message),
                Ok(record) => Ok(records.push(record)),
            },
        }
    }
}

/// The records that a JSON text stands for.
pub open spec fn records_of(text: Seq<char>) -> Result<Seq<ItemView>, Seq<char>> {
    match elements_of(text) {
        Err(message) => Err(message),
        Ok(elements) => records_of_elements(elements),
    }
}

/// The views of a list of records.
pub open spec fn item_views(items: Seq<TodoItem>) -> Seq<ItemView> {
    items.map_values(|item: TodoItem| item@)
}

/// The views of the records that were read, or the message.
pub open spec fn records_outcome(outcome: Result<Vec<TodoItem>, String>) -> Result<
    Seq<ItemView>,
    Seq<char>,
> {
    match outcome {
        Ok(items) => Ok(item_views(items@)),
        Err(message) => Err(message@),
    }
}

/// Looks a member up by its key.
pub fn find_member<'a>(members: &'a Vec<(String, String)>, key: &str) -> (value: Option<&'a str>)
    ensures
        match value {
            Some(text) => member_value(member_texts(members@), key@) == Some(text@),
            None => member_value(member_texts(members@), key@).is_none(),
        },
{
    let ghost all = member_texts(members@);
    let mut index: usize = 0;
    assert(all.skip(0) =~= all);
    while index < members.len()
        invariant
            index <= members.len(),
            all == member_texts(members@),
            member_value(all, key@) == member_value(all.skip(index as int), key@),
        decreases members.len() - index,
    {
        let ghost rest = all.skip(index as int);
        proof {
            assert(rest[0] == all[index as int]);
            assert(rest.drop_first() =~= all.skip(index + 1));
        }
        if same_text(members[index].0.as_str(), key) {
            return Some(members[index].1.as_str());
        }
        index += 1;
    }
    assert(all.skip(index as int).len() == 0);
    None
}

/// Builds the message for a member that an object lacks.
fn missing_message(key: &str) -> (message: String)
    ensures
        message@ == missing_member(key@),
{
    let mut message = String::from_str("missing field `");
    message.append(key);
    message.append("`");
    message
}

/// Reads the member `key` of an object as a string.
fn string_member(members: &Vec<(String, String)>, key: &str) -> (value: Result<String, String>)
    ensures
        text_outcome(value) == (match member_value(member_texts(members@), key@) {
            None => Err(missing_member(key@)),
            Some(text) => string_of(text),
        }),
{
    match find_member(members, key) {
        None => Err(missing_message(key)),
        Some(text) => read_string(text),
    }
}

/// Builds a record from the members of a JSON object.
pub fn record_from_members(members: &Vec<(String, String)>) -> (record: Result<TodoItem, String>)
    ensures
        match record {
            Ok(item) => record_of_members(member_texts(members@)) == Ok::<ItemView, Seq<char>>(
                item@,
            ),
            Err(message) => record_of_members(member_texts(members@)) == Err::<
                ItemView,
                Seq<char>,
            >(message@),
        },
{
    let name = match string_member(members, "name") {
        Ok(name) => name,
        Err(message) => {
            return Err(message);
        },
    };
    let content = match string_member(members, "content") {
        Ok(content) => content,
        Err(message) => {
            return Err(message);
        },
    };
    let priority = match find_member(members, "priority") {
        None => {
            return Err(missing_message("priority"));
        },
        Some(text) => match read_integer(text) {
            Ok(priority) => priority,
            Err(message) => {
                return Err(message);
            },
        },
    };
    Ok(TodoItem::new(name, content, priority))
}

/// Reads one array element as a record.
pub fn decode_record(text: &str) -> (record: Result<TodoItem, String>)
    ensures
        match record {
            Ok(item) => record_of(text@) == Ok::<ItemView, Seq<char>>(item@),
            Err(message) => record_of(text@) == Err::<ItemView, Seq<char>>(message@),
        },
{
    match split_object(text) {
        Err(message) => Err(message),
        Ok(members) => record_from_members(&members),
    }
}

/// Reads a JSON text as a list of records.
pub fn decode_records(text: &str) -> (records: Result<Vec<TodoItem>, String>)
    ensures
        records_outcome(records) == records_of(text@),
{
    let elements = match split_array(text) {
        Ok(elements) => elements,
        Err(message) => {
            return Err(message);
        },
    };
    let ghost all = texts(elements@);
    let mut records: Vec<TodoItem> = Vec::new();
    let mut index: usize = 0;
    assert(all.take(0) =~= Seq::<Seq<char>>::empty());
    assert(item_views(records@) =~= Seq::<ItemView>::empty());
    while index < elements.len()
        invariant
            index <= elements.len(),
            all == texts(elements@),
            elements_of(text@) == Ok::<Seq<Seq<char>>, Seq<char>>(all),
            records_of_elements(all.take(index as int)) == Ok::<Seq<ItemView>, Seq<char>>(
                item_views(records@),
            ),
        decreases elements.len() - index,
    {
        let ghost before = all.take(index as int);
        let ghost upto = all.take(index + 1);
        proof {
            assert(upto.drop_last() =~= before);
            assert(upto.last() == elements@[index as int]@);
        }
        match decode_record(elements[index].as_str()) {
            Err(message) => {
                proof {
                    lemma_error_stays(all, index + 1);
                }
                return Err(message);
            },
            Ok(item) => {
                let ghost old_views = item_views(records@);
                records.push(item);
                assert(item_views(records@) =~= old_views.push(item@));
            },
        }
        index += 1;
    }
    assert(all.take(index as int) =~= all);
    Ok(records)
}

/// Once the elements up to some point fail to give records, so do all of
/// them, with the same message.
pub proof fn lemma_error_stays(elements: Seq<Seq<char>>, upto: int)
    requires
        0 <= upto <= elements.len(),
        records_of_elements(elements.take(upto)) is Err,
    ensures
        records_of_elements(elements) == records_of_elements(elements.take(upto)),
    decreases elements.len() - upto,
{
    if upto < elements.len() {
        let next = elements.take(upto + 1);
        assert(next.drop_last() =~= elements.take(upto));
        lemma_error_stays(elements, upto + 1);
    } else {
        assert(elements.take(upto) =~= elements);
    }
}

/// The JSON object that a record is written as, given the literals of its
/// two strings.
pub open spec fn object_text(name: Seq<char>, content: Seq<char>, priority: i16) -> Seq<char> {
    "{\"name\":"@ + name + ",\"content\":"@ + content + ",\"priority\":"@ + decimal(
        priority as int,
    ) + "}"@
}

/// The JSON object of a record, or the message of the string that could not
/// be written.
pub open spec fn record_json(item: ItemView) -> Result<Seq<char>, Seq<char>> {
    match quoted_of(item.name) {
        Err(message) => Err(message),
        Ok(name) => match quoted_of(item.content) {
            Err(message) => Err(message),
            Ok(content) => Ok(object_text(name, content, item.priority)),
        },
    }
}

/// The objects of the records, each but the first after a comma; or the
/// message of the first record that could not be written.
pub open spec fn objects_json(items: Seq<ItemView>) -> Result<Seq<char>, Seq<char>>
    decreases items.len(),
{
    if items.len() == 0 {
        Ok(Seq::empty())
    } else {
        match objects_json(items.drop_last()) {
            Err(message) => Err(message),
            Ok(before) => match record_json(items.last()) {
                Err(message) => Err(message),
                Ok(object) => if items.len() == 1 {
                    Ok(object)
                } else {
                    Ok(before + ","@ + object)
                },
            },
        }
    }
}

/// The JSON array of a list of records.
pub open spec fn records_json(items: Seq<ItemView>) -> Result<Seq<char>, Seq<char>> {
    match objects_json(items) {
        Err(message) => Err(message),
        Ok(objects) => Ok("["@ + objects + "]"@),
    }
}

/// Writes one record as a JSON object.
pub fn encode_record(item: &TodoItem) -> (json: Result<String, String>)
    ensures
        text_outcome(json) == record_json(item@),
{
    let name = match write_string(item.name()) {
        Ok(name) => name,
        Err(message) => {
            return Err(message);
        },
    };
    let content = match write_string(item.content()) {
        Ok(content) => content,
        Err(message) => {
            return Err(message);
        },
    };
    let mut json = String::from_str("{\"name\":");
    json.append(name.as_str());
    json.append(",\"content\":");
    json.append(content.as_str());
    json.append(",\"priority\":");
    let number = decimal_string(item.priority());
    json.append(number.as_str());
    json.append("}");
    Ok(json)
}

/// Writes a list of records as a JSON array.
pub fn encode_records(items: &Vec<TodoItem>) -> (json: Result<String, String>)
    ensures
        text_outcome(json) == records_json(item_views(items@)),
{
    let ghost all = item_views(items@);
    let mut objects = String::new();
    let mut index: usize = 0;
    assert(all.take(0) =~= Seq::<ItemView>::empty());
    while index < items.len()
        invariant
            index <= items.len(),
            all == item_views(items@),
            objects_json(all.take(index as int)) == Ok::<Seq<char>, Seq<char>>(objects@),
        decreases items.len() - index,
    {
        let ghost upto = all.take(index + 1);
        proof {
            assert(upto.drop_last() =~= all.take(index as int));
            assert(upto.last() == items@[index as int]@);
        }
        match encode_record(&items[index]) {
            Err(message) => {
                proof {
                    lemma_refusal_stays(all, index + 1);
                }
                return Err(message);
            },
            Ok(object) => {
                if index > 0 {
                    objects.append(",");
                }
                objects.append(object.as_str());
            },
        }
        index += 1;
    }
    assert(all.take(index as int) =~= all);
    let mut json = String::from_str("[");
    json.append(objects.as_str());
    json.append("]");
    Ok(json)
}

/// Once the records up to some point cannot be written, neither can all of
/// them, with the same message.
pub proof fn lemma_refusal_stays(items: Seq<ItemView>, upto: int)
    requires
        0 <= upto <= items.len(),
        objects_json(items.take(upto)) is Err,
    ensures
        objects_json(items) == objects_json(items.take(upto)),
    decreases items.len() - upto,
{
    if upto < items.len() {
        let next = items.take(upto + 1);
        assert(next.drop_last() =~= items.take(upto));
        lemma_refusal_stays(items, upto + 1);
    } else {
        assert(items.take(upto) =~= items);
    }
}

/// The empty list is written as an array without elements.
pub proof fn lemma_empty_list_json()
    ensures
        records_json(Seq::empty()) == Ok::<Seq<char>, Seq<char>>("[]"@),
{
    reveal_strlit("[");
    reveal_strlit("]");
    reveal_strlit("[]");
    assert("["@ + Seq::<char>::empty() + "]"@ =~= "[]"@);
}

} // verus!
