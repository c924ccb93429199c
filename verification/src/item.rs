//! One entry of the todo list.

use crate::decimal::{decimal, decimal_string};
use vstd::prelude::*;
use vstd::std_specs::cmp::PartialEqSpecImpl;
use vstd::string::StringExecFns;

verus! {

/// What a record holds: its name, its free text and its priority (a higher
/// number is more urgent).
pub struct ItemView {
    pub name: Seq<char>,
    pub content: Seq<char>,
    pub priority: i16,
}

/// A todo entry. Once built it is never changed.
#[derive(Debug)]
pub struct TodoItem {
    name: String,
    content: String,
    priority: i16,
}

impl View for TodoItem {
    type V = ItemView;

    closed spec fn view(&self) -> ItemView {
        ItemView { name: self.name@, content: self.content@, priority: self.priority }
    }
}

/// The text that shows a record to a reader.
pub open spec fn rendering(item: ItemView) -> Seq<char> {
    "Item: "@ + item.name + "\nContent: "@ + item.content + "\n(Priority: "@ + decimal(
        item.priority as int,
    ) + ")"@
}

impl TodoItem {
    /// Builds a record from its three fields.
    pub fn new(name: String, content: String, priority: i16) -> (item: TodoItem)
        ensures
            item@ == (ItemView { name: name@, content: content@, priority }),
    {
        TodoItem { name, content, priority }
    }

    /// The record's name.
    pub fn name(&self) -> (name: &str)
        ensures
            name@ == self@.name,
    {
        self.name.as_str()
    }

    /// The record's free text.
    pub fn content(&self) -> (content: &str)
        ensures
            content@ == self@.content,
    {
        self.content.as_str()
    }

    /// The record's priority.
    pub fn priority(&self) -> (priority: i16)
        ensures
            priority == self@.priority,
    {
        self.priority
    }

    /// Renders the record on three lines: name, content, priority.
    pub fn render(&self) -> (text: String)
        ensures
            text@ == rendering(self@),
    {
        let mut text = String::from_str("Item: ");
        text.append(self.name.as_str());
        text.append("\nContent: ");
        text.append(self.content.as_str());
        text.append("\n(Priority: ");
        let number = decimal_string(self.priority);
        text.append(number.as_str());
        text.append(")");
        text
    }
}

impl Clone for TodoItem {
    fn clone(&self) -> (copy: TodoItem)
        ensures
            copy@ == self@,
    {
        TodoItem {
            name: self.name.clone(),
            content: self.content.clone(),
            priority: self.priority,
        }
    }
}

impl PartialEq for TodoItem {
    fn eq(&self, other: &TodoItem) -> (equal: bool) {
        self.name == other.name && self.content == other.content && self.priority
            == other.priority
    }
}

impl Eq for TodoItem {

}

impl PartialEqSpecImpl for TodoItem {
    open spec fn obeys_eq_spec() -> bool {
        true
    }

    open spec fn eq_spec(&self, other: &TodoItem) -> bool {
        self@ == other@
    }
}

} // verus!
