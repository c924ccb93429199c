//! The decisions that the commands of the todo program take: what an answer
//! of the user means, what a confirmed choice does to the list, and with
//! which status a command ends.

use crate::error::TodoError;
use crate::item::{ItemView, TodoItem};
use crate::json::item_views;
use crate::selector::{entry_actions, entry_candidates, outcome_of, Action, Outcome, Selector};
use crate::store::{without_first_named, TodoList};
use crate::text::{
    lowercase, lowercase_of, number_of, parse_number, same_text, trimmed, trimmed_of,
};
use vstd::prelude::*;
use vstd::string::StringExecFns;

verus! {

/// Whether an answer to "are you sure" says yes: it is the letter `y`, in
/// either case, with any white space around it.
pub open spec fn says_yes(answer: Seq<char>) -> bool {
    lowercase_of(trimmed_of(answer)) == "y"@
}

/// Whether the user confirmed a step that cannot be undone.
pub fn confirms(answer: &str) -> (yes: bool)
    ensures
        yes == says_yes(answer@),
{
    let lower = lowercase(trimmed(answer));
    same_text(lower.as_str(), "y")
}

/// What to do with the record that was picked from the list.
#[derive(Clone, Copy, Debug, PartialEq, Eq, Structural)]
pub enum FollowUp {
    /// Show the record alone.
    Show,
    /// Delete the record, once the user has confirmed.
    Delete,
    /// Leave everything as it is.
    Cancel,
}

/// The follow-up that a number stands for: 1 shows, 2 deletes, anything
/// else cancels.
pub open spec fn follow_up_of(number: Option<u64>) -> FollowUp {
    if number == Some(1u64) {
        FollowUp::Show
    } else if number == Some(2u64) {
        FollowUp::Delete
    } else {
        FollowUp::Cancel
    }
}

/// The follow-up for a number that the user typed, or for none.
pub fn follow_up_for(number: Option<u64>) -> (choice: FollowUp)
    ensures
        choice == follow_up_of(number),
{
    match number {
        Some(1) => FollowUp::Show,
        Some(2) => FollowUp::Delete,
        _ => FollowUp::Cancel,
    }
}

/// The follow-up that an answer of the user asks for: the answer is read as
/// a number, white space around it set aside.
pub fn follow_up(answer: &str) -> (choice: FollowUp)
    ensures
        choice == follow_up_of(number_of(trimmed_of(answer@))),
{
    follow_up_for(parse_number(trimmed(answer)))
}

/// The name and the priority of a record when the user gave none.
pub open spec fn with_defaults(
    name: Option<Seq<char>>,
    content: Seq<char>,
    priority: Option<i16>,
) -> ItemView {
    ItemView {
        name: match name {
            Some(name) => name,
            None => "Untitled"@,
        },
        content,
        priority: match priority {
            Some(priority) => priority,
            None => 0,
        },
    }
}

/// Builds the record that the add command was given: a record without a
/// name is called `Untitled`, a record without a priority has priority 0.
pub fn new_item(name: Option<String>, content: String, priority: Option<i16>) -> (item: TodoItem)
    ensures
        item@ == with_defaults(
            match name {
                Some(name) => Some(name@),
                None => None,
            },
            content@,
            priority,
        ),
{
    let name = match name {
        Some(name) => name,
        None => String::from_str("Untitled"),
    };
    let priority = match priority {
        Some(priority) => priority,
        None => 0,
    };
    TodoItem::new(name, content, priority)
}

/// The entries of a pick list over the given records, in their order, each
/// bound to the same action.
pub fn entries_for(items: &Vec<TodoItem>, action: Action) -> (entries: Vec<(TodoItem, Action)>)
    ensures
        entry_candidates(entries@) == item_views(items@),
        entry_actions(entries@) == Seq::new(items@.len(), |i: int| action),
{
    let mut entries: Vec<(TodoItem, Action)> = Vec::new();
    let mut index: usize = 0;
    while index < items.len()
        invariant
            index <= items.len(),
            entries@.len() == index,
            forall|i: int| 0 <= i < index ==> (#[trigger] entries@[i]).0@ == items@[i]@,
            forall|i: int| 0 <= i < index ==> (#[trigger] entries@[i]).1 == action,
        decreases items.len() - index,
    {
        entries.push((items[index].clone(), action));
        index += 1;
    }
    assert(entry_candidates(entries@) =~= item_views(items@));
    assert(entry_actions(entries@) =~= Seq::new(items@.len(), |i: int| action));
    entries
}

/// The list after a pick list has ended: if a candidate bound to a deletion
/// was confirmed, the first record of that candidate's name is gone; in
/// every other case the list is as it was.
pub open spec fn after_choice(
    items: Seq<ItemView>,
    candidates: Seq<ItemView>,
    outcome: Outcome,
) -> Seq<ItemView> {
    match outcome {
        Outcome::Selected(index, Action::Delete) => without_first_named(
            items,
            candidates[index as int].name,
        ),
        _ => items,
    }
}

/// Carries out on the list what the end of a pick list asks for, and hands
/// the index of the confirmed candidate to the caller.
pub fn dispatch(list: &mut TodoList, selector: &Selector) -> (chosen: Option<usize>)
    ensures
        final(list)@ == after_choice(old(list)@, selector@.candidates, outcome_of(selector@)),
        chosen == match outcome_of(selector@) {
            Outcome::Selected(index, _) => Some(index),
            _ => None,
        },
        chosen is Some ==> chosen->Some_0 < selector@.candidates.len(),
{
    match selector.outcome() {
        Outcome::Selected(index, action) => {
            match action {
                Action::Delete => {
                    let name = selector.candidate(index).name().to_owned();
                    list.del_by_name(name);
                },
                Action::Nothing => {},
            }
            Some(index)
        },
        _ => None,
    }
}

/// How a command ended.
#[derive(Debug)]
pub enum Ending {
    /// The command did what it was asked to do.
    Done,
    /// The user called the command off.
    Cancelled,
    /// The command looked for a record and found none.
    NoMatch,
    /// The command met a failure.
    Failed(TodoError),
}

/// The status with which the program ends.
pub open spec fn status_of(ending: Ending) -> u8 {
    match ending {
        Ending::Done => 0,
        Ending::Cancelled => 0,
        Ending::NoMatch => 1,
        Ending::Failed(_) => 1,
    }
}

/// The status with which the program ends: 0 when the command was done or
/// called off, 1 when it found no record or met a failure.
pub fn exit_code(ending: &Ending) -> (status: u8)
    ensures
        status == status_of(*ending),
{
    match ending {
        Ending::Done => 0,
        Ending::Cancelled => 0,
        Ending::NoMatch => 1,
        Ending::Failed(_) => 1,
    }
}

} // verus!
