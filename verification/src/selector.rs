//! The pick list: a cursor over an ordered list of candidates, moved by
//! keys until one candidate is confirmed or the choice is called off.
//!
//! The candidates are shown in the order in which they were handed over.
//! The cursor wraps around: up from the first candidate leads to the last,
//! down from the last leads to the first.

use crate::error::{ErrorView, TodoError};
use crate::item::{ItemView, TodoItem};
use vstd::prelude::*;

verus! {

/// A key that the pick list listens to; `Other` is any key it ignores.
#[derive(Clone, Copy, Debug, PartialEq, Eq, Structural)]
pub enum Key {
    Up,
    Down,
    Enter,
    Escape,
    Other,
}

/// What is bound to a candidate for the moment at which it is confirmed.
#[derive(Clone, Copy, Debug, PartialEq, Eq, Structural)]
pub enum Action {
    /// Nothing happens; the caller learns which candidate was chosen.
    Nothing,
    /// The record of that name is removed from the list.
    Delete,
}

/// Where a pick list stands. `Confirmed` and `Cancelled` are final.
#[derive(Clone, Copy, Debug, PartialEq, Eq, Structural)]
pub enum Phase {
    /// Built, not yet shown.
    Idle,
    /// Shown, with the cursor on the candidate of this index.
    Active(usize),
    /// The candidate of this index was confirmed.
    Confirmed(usize),
    /// The choice was called off.
    Cancelled,
}

/// The phase in which a pick list over `count` candidates starts: on the
/// first candidate, or called off at once when there is none.
pub open spec fn started(count: nat) -> Phase {
    if count == 0 {
        Phase::Cancelled
    } else {
        Phase::Active(0)
    }
}

/// The phase that follows `phase` when `key` is pressed on a pick list over
/// `count` candidates.
pub open spec fn pressed(phase: Phase, count: nat, key: Key) -> Phase {
    match phase {
        Phase::Active(cursor) => match key {
            Key::Up => if cursor == 0 {
                Phase::Active((count - 1) as usize)
            } else {
                Phase::Active((cursor - 1) as usize)
            },
            Key::Down => Phase::Active(((cursor + 1) % (count as int)) as usize),
            Key::Enter => Phase::Confirmed(cursor),
            Key::Escape => Phase::Cancelled,
            Key::Other => phase,
        },
        _ => phase,
    }
}

/// The phase after a run of keys, pressed in order.
pub open spec fn after_keys(phase: Phase, count: nat, keys: Seq<Key>) -> Phase
    decreases keys.len(),
{
    if keys.len() == 0 {
        phase
    } else {
        pressed(after_keys(phase, count, keys.drop_last()), count, keys.last())
    }
}

/// A phase is sound for `count` candidates if its cursor points at one.
pub open spec fn phase_fits(phase: Phase, count: nat) -> bool {
    match phase {
        Phase::Active(cursor) => cursor < count,
        Phase::Confirmed(cursor) => cursor < count,
        _ => true,
    }
}

/// The index of the first candidate shown when at most `rows` of `count`
/// candidates fit on the screen and the cursor is on `cursor`: the window
/// keeps the cursor near its middle and never reaches past the last
/// candidate.
pub open spec fn window_start(count: nat, rows: nat, cursor: nat) -> nat {
    if count <= rows {
        0
    } else {
        let lead = if cursor >= rows / 2 {
            (cursor - rows / 2) as nat
        } else {
            0
        };
        if lead <= count - rows {
            lead
        } else {
            (count - rows) as nat
        }
    }
}

/// The index behind the last candidate shown.
pub open spec fn window_end(count: nat, rows: nat, cursor: nat) -> nat {
    let start = window_start(count, rows, cursor);
    if start + rows <= count {
        start + rows
    } else {
        count
    }
}

/// What a pick list holds.
pub struct SelectorView {
    pub candidates: Seq<ItemView>,
    pub actions: Seq<Action>,
    pub rows: nat,
    pub phase: Phase,
}

/// How a pick list ended, or that it has not ended yet.
#[derive(Clone, Copy, Debug, PartialEq, Eq, Structural)]
pub enum Outcome {
    /// The pick list is idle or still active.
    Pending,
    /// The candidate of this index was confirmed, with this action bound to it.
    Selected(usize, Action),
    /// The choice was called off.
    Cancelled,
}

/// The outcome that a pick list in the given state stands for.
pub open spec fn outcome_of(selector: SelectorView) -> Outcome {
    match selector.phase {
        Phase::Confirmed(cursor) => Outcome::Selected(cursor, selector.actions[cursor as int]),
        Phase::Cancelled => Outcome::Cancelled,
        _ => Outcome::Pending,
    }
}

/// The views of the candidates of a list of entries.
pub open spec fn entry_candidates(entries: Seq<(TodoItem, Action)>) -> Seq<ItemView> {
    entries.map_values(|entry: (TodoItem, Action)| entry.0@)
}

/// The actions of a list of entries.
pub open spec fn entry_actions(entries: Seq<(TodoItem, Action)>) -> Seq<Action> {
    entries.map_values(|entry: (TodoItem, Action)| entry.1)
}

/// A pick list over records, each with the action bound to it.
pub struct Selector {
    entries: Vec<(TodoItem, Action)>,
    rows: usize,
    phase: Phase,
}

impl View for Selector {
    type V = SelectorView;

    closed spec fn view(&self) -> SelectorView {
        SelectorView {
            candidates: entry_candidates(self.entries@),
            actions: entry_actions(self.entries@),
            rows: self.rows as nat,
            phase: self.phase,
        }
    }
}

impl Selector {
    #[verifier::type_invariant]
    spec fn cursor_in_range(&self) -> bool {
        phase_fits(self.phase, self.entries@.len())
    }

    /// Builds an idle pick list over the entries, in their order, of which
    /// at most `rows` are shown at a time.
    pub fn new(entries: Vec<(TodoItem, Action)>, rows: usize) -> (selector: Selector)
        ensures
            selector@.candidates == entry_candidates(entries@),
            selector@.actions == entry_actions(entries@),
            selector@.rows == rows,
            selector@.phase == Phase::Idle,
    {
        Selector { entries, rows, phase: Phase::Idle }
    }

    /// The number of candidates.
    pub fn count(&self) -> (count: usize)
        ensures
            count == self@.candidates.len(),
            count == self@.actions.len(),
    {
        self.entries.len()
    }

    /// Where the pick list stands. Its cursor always points at a candidate.
    pub fn phase(&self) -> (phase: Phase)
        ensures
            phase == self@.phase,
            phase_fits(phase, self@.candidates.len()),
    {
        proof {
            use_type_invariant(self);
        }
        self.phase
    }

    /// The candidate of the given index.
    pub fn candidate(&self, index: usize) -> (item: &TodoItem)
        requires
            index < self@.candidates.len(),
        ensures
            item@ == self@.candidates[index as int],
    {
        &self.entries[index].0
    }

    /// Shows the pick list. `terminal` is what became of preparing the
    /// terminal for it. An idle pick list starts on its first candidate, or
    /// is called off at once if it has none or if the terminal could not be
    /// prepared; the latter is reported as an input error. A pick list
    /// that was shown before stays as it is.
    pub fn begin(&mut self, terminal: Result<(), String>) -> (outcome: Result<(), TodoError>)
        ensures
            final(self)@.candidates == old(self)@.candidates,
            final(self)@.actions == old(self)@.actions,
            final(self)@.rows == old(self)@.rows,
            match outcome {
                Ok(_) => terminal is Ok,
                Err(error) => terminal is Err && error@ == ErrorView::Input(terminal->Err_0@),
            },
            final(self)@.phase == if old(self)@.phase != Phase::Idle {
                old(self)@.phase
            } else if terminal is Ok {
                started(old(self)@.candidates.len())
            } else {
                Phase::Cancelled
            },
    {
        proof {
            use_type_invariant(&*self);
        }
        let idle = match self.phase {
            Phase::Idle => true,
            _ => false,
        };
        match terminal {
            Ok(_) => {
                if idle {
                    if self.entries.len() == 0 {
                        self.phase = Phase::Cancelled;
                    } else {
                        self.phase = Phase::Active(0);
                    }
                }
                Ok(())
            },
            Err(message) => {
                if idle {
                    self.phase = Phase::Cancelled;
                }
                Err(TodoError::Input(message))
            },
        }
    }

    /// Takes one key. Up and down move the cursor and wrap around, enter
    /// confirms the candidate under the cursor, escape calls the choice off;
    /// a pick list that is not active ignores every key.
    pub fn press(&mut self, key: Key)
        ensures
            final(self)@.candidates == old(self)@.candidates,
            final(self)@.actions == old(self)@.actions,
            final(self)@.rows == old(self)@.rows,
            final(self)@.phase == pressed(old(self)@.phase, old(self)@.candidates.len(), key),
    {
        proof {
            use_type_invariant(&*self);
        }
        let count = self.entries.len();
        match self.phase {
            Phase::Active(cursor) => match key {
                Key::Up => {
                    if cursor == 0 {
                        self.phase = Phase::Active(count - 1);
                    } else {
                        self.phase = Phase::Active(cursor - 1);
                    }
                },
                Key::Down => {
                    proof {
                        if cursor + 1 == count {
                            vstd::arithmetic::div_mod::lemma_mod_self_0(count as int);
                        } else {
                            vstd::arithmetic::div_mod::lemma_small_mod(
                                (cursor + 1) as nat,
                                count as nat,
                            );
                        }
                    }
                    if cursor + 1 == count {
                        self.phase = Phase::Active(0);
                    } else {
                        self.phase = Phase::Active(cursor + 1);
                    }
                },
                Key::Enter => {
                    self.phase = Phase::Confirmed(cursor);
                },
                Key::Escape => {
                    self.phase = Phase::Cancelled;
                },
                Key::Other => {},
            },
            _ => {},
        }
    }

    /// Takes a run of keys in order.
    pub fn press_all(&mut self, keys: &Vec<Key>)
        ensures
            final(self)@.candidates == old(self)@.candidates,
            final(self)@.actions == old(self)@.actions,
            final(self)@.rows == old(self)@.rows,
            final(self)@.phase == after_keys(
                old(self)@.phase,
                old(self)@.candidates.len(),
                keys@,
            ),
    {
        let mut index: usize = 0;
        assert(keys@.take(0) =~= Seq::<Key>::empty());
        while index < keys.len()
            invariant
                index <= keys.len(),
                self@.candidates == old(self)@.candidates,
                self@.actions == old(self)@.actions,
                self@.rows == old(self)@.rows,
                self@.phase == after_keys(
                    old(self)@.phase,
                    old(self)@.candidates.len(),
                    keys@.take(index as int),
                ),
            decreases keys.len() - index,
        {
            proof {
                assert(keys@.take(index + 1).drop_last() =~= keys@.take(index as int));
            }
            self.press(keys[index]);
            index += 1;
        }
        assert(keys@.take(index as int) =~= keys@);
    }

    /// How the pick list ended, if it has. A confirmed index always points
    /// at a candidate.
    pub fn outcome(&self) -> (outcome: Outcome)
        ensures
            outcome == outcome_of(self@),
            outcome matches Outcome::Selected(index, _) ==> index < self@.candidates.len(),
    {
        proof {
            use_type_invariant(self);
        }
        match self.phase {
            Phase::Confirmed(cursor) => Outcome::Selected(cursor, self.entries[cursor].1),
            Phase::Cancelled => Outcome::Cancelled,
            _ => Outcome::Pending,
        }
    }

    /// The candidates to show, as the index of the first and the index
    /// behind the last. While the pick list is not active the window is the
    /// one for a cursor on the first candidate.
    pub fn window(&self) -> (range: (usize, usize))
        ensures
            range.0 == window_start(
                self@.candidates.len(),
                self@.rows,
                cursor_of(self@.phase) as nat,
            ),
            range.1 == window_end(self@.candidates.len(), self@.rows, cursor_of(self@.phase) as nat),
    {
        proof {
            use_type_invariant(self);
        }
        let count = self.entries.len();
        let rows = self.rows;
        let cursor = match self.phase {
            Phase::Active(cursor) => cursor,
            Phase::Confirmed(cursor) => cursor,
            _ => 0,
        };
        let start = if count <= rows {
            0
        } else {
            let half = rows / 2;
            let lead = if cursor >= half {
                cursor - half
            } else {
                0
            };
            if lead <= count - rows {
                lead
            } else {
                count - rows
            }
        };
        let end = if rows <= count - start {
            start + rows
        } else {
            count
        };
        (start, end)
    }
}

/// The candidate that a phase points at; the first one where it points at
/// none.
pub open spec fn cursor_of(phase: Phase) -> usize {
    match phase {
        Phase::Active(cursor) => cursor,
        Phase::Confirmed(cursor) => cursor,
        _ => 0,
    }
}

/// `times` presses of the down key.
pub open spec fn downs(times: nat) -> Seq<Key> {
    Seq::new(times, |i: int| Key::Down)
}

/// A key never leads out of the candidates: the phase that follows a sound
/// phase is sound.
pub proof fn lemma_pressed_fits(phase: Phase, count: nat, key: Key)
    requires
        phase_fits(phase, count),
        count <= usize::MAX,
    ensures
        phase_fits(pressed(phase, count, key), count),
{
    if let Phase::Active(cursor) = phase {
        assert(0 <= (cursor + 1) % (count as int) < count) by (nonlinear_arith)
            requires
                0 <= cursor < count,
        ;
    }
}

/// Once a candidate is confirmed or the choice is called off, no key changes
/// anything.
pub proof fn lemma_final_phases_stay(phase: Phase, count: nat, keys: Seq<Key>)
    requires
        phase is Confirmed || phase is Cancelled,
    ensures
        after_keys(phase, count, keys) == phase,
    decreases keys.len(),
{
    if keys.len() > 0 {
        lemma_final_phases_stay(phase, count, keys.drop_last());
    }
}

/// From the first candidate, `times` presses of the down key lead to the
/// candidate of index `times` modulo the number of candidates.
pub proof fn lemma_downs_wrap(count: nat, times: nat)
    requires
        0 < count <= usize::MAX,
    ensures
        after_keys(Phase::Active(0), count, downs(times)) == Phase::Active(
            (times % count) as usize,
        ),
    decreases times,
{
    if times == 0 {
        assert(0nat % count == 0) by (nonlinear_arith)
            requires
                count > 0,
        ;
    } else {
        let shorter = (times - 1) as nat;
        assert(downs(times).drop_last() =~= downs(shorter));
        lemma_downs_wrap(count, shorter);
        let c = count as int;
        let s = shorter as int;
        assert(((s % c) + 1) % c == (s + 1) % c) by {
            vstd::arithmetic::div_mod::lemma_add_mod_noop(s, 1, c);
            vstd::arithmetic::div_mod::lemma_mod_twice(s, c);
            if c == 1 {
                vstd::arithmetic::div_mod::lemma_mod_self_0(1);
                vstd::arithmetic::div_mod::lemma_mod_twice(s + 1, c);
            } else {
                vstd::arithmetic::div_mod::lemma_small_mod(1, count);
            }
        }
        assert(0 <= s % c < c) by {
            vstd::arithmetic::div_mod::lemma_mod_bound(s, c);
        }
    }
}

/// A script of `times` presses of the down key and then enter, played on a
/// pick list that just started, confirms the candidate of index `times`
/// modulo the number of candidates.
pub proof fn lemma_downs_then_enter(count: nat, times: nat)
    requires
        0 < count <= usize::MAX,
    ensures
        after_keys(started(count), count, downs(times).push(Key::Enter)) == Phase::Confirmed(
            (times % count) as usize,
        ),
{
    lemma_downs_wrap(count, times);
    assert(downs(times).push(Key::Enter).drop_last() =~= downs(times));
}

/// A script of any number of presses of the down key and then escape calls
/// the choice off.
pub proof fn lemma_downs_then_escape(count: nat, times: nat)
    requires
        0 < count <= usize::MAX,
    ensures
        after_keys(started(count), count, downs(times).push(Key::Escape)) == Phase::Cancelled,
{
    lemma_downs_wrap(count, times);
    assert(downs(times).push(Key::Escape).drop_last() =~= downs(times));
}

/// With room for at least one row, the window always shows the candidate
/// under the cursor, and it shows as many candidates as fit.
pub proof fn lemma_window_holds_cursor(count: nat, rows: nat, cursor: nat)
    requires
        cursor < count,
        rows >= 1,
    ensures
        window_start(count, rows, cursor) <= cursor < window_end(count, rows, cursor),
        window_end(count, rows, cursor) <= count,
        window_end(count, rows, cursor) - window_start(count, rows, cursor) == if count <= rows {
            count
        } else {
            rows
        },
{
}

} // verus!
