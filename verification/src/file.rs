//! The backing file, as far as the list has to reason about it.
//!
//! The library never touches a file. It hands out the steps to perform on
//! one, and describes here what each step does to a file's bytes and to the
//! place where the next write goes.

use crate::error::{ErrorView, TodoError};
use vstd::prelude::*;

verus! {

/// One operation on the backing file.
#[derive(Debug)]
pub enum FileStep {
    /// Hand pending writes to the system.
    Flush,
    /// Cut the file to no bytes.
    Truncate,
    /// Move the place of the next write to the start.
    Rewind,
    /// Write all of these bytes at the place of the next write.
    Write(Vec<u8>),
}

/// A step and the bytes it carries.
pub enum StepView {
    Flush,
    Truncate,
    Rewind,
    Write(Seq<u8>),
}

impl View for FileStep {
    type V = StepView;

    open spec fn view(&self) -> StepView {
        match self {
            FileStep::Flush => StepView::Flush,
            FileStep::Truncate => StepView::Truncate,
            FileStep::Rewind => StepView::Rewind,
            FileStep::Write(bytes) => StepView::Write(bytes@),
        }
    }
}

/// The views of a list of steps.
pub open spec fn step_views(steps: Seq<FileStep>) -> Seq<StepView> {
    steps.map_values(|step: FileStep| step@)
}

/// A file: its bytes and the place of the next write.
pub struct FileState {
    pub bytes: Seq<u8>,
    pub position: nat,
}

/// The bytes of a file after `data` was written at `position`. A write past
/// the end fills the gap with zero bytes; a write of nothing changes nothing.
pub open spec fn overwritten(bytes: Seq<u8>, position: nat, data: Seq<u8>) -> Seq<u8> {
    if data.len() == 0 {
        bytes
    } else {
        let padded = if position <= bytes.len() {
            bytes
        } else {
            bytes + Seq::new((position - bytes.len()) as nat, |i: int| 0u8)
        };
        let end = position + data.len();
        let tail = if end <= padded.len() {
            padded.skip(end as int)
        } else {
            Seq::empty()
        };
        padded.take(position as int) + data + tail
    }
}

/// The file after one step. Cutting a file leaves the place of the next
/// write where it was.
pub open spec fn after_step(file: FileState, step: StepView) -> FileState {
    match step {
        StepView::Flush => file,
        StepView::Truncate => FileState { bytes: Seq::empty(), position: file.position },
        StepView::Rewind => FileState { bytes: file.bytes, position: 0 },
        StepView::Write(data) => FileState {
            bytes: overwritten(file.bytes, file.position, data),
            position: file.position + data.len(),
        },
    }
}

/// The file after a list of steps, performed in order.
pub open spec fn after_steps(file: FileState, steps: Seq<StepView>) -> FileState
    decreases steps.len(),
{
    if steps.len() == 0 {
        file
    } else {
        after_step(after_steps(file, steps.drop_last()), steps.last())
    }
}

/// The steps that empty a file: flush, cut to no bytes, go to the start.
pub open spec fn clear_plan() -> Seq<StepView> {
    seq![StepView::Flush, StepView::Truncate, StepView::Rewind]
}

/// The steps that replace a file's content by `payload`: cut to no bytes, go
/// to the start, write the payload.
pub open spec fn replace_plan(payload: Seq<u8>) -> Seq<StepView> {
    seq![StepView::Truncate, StepView::Rewind, StepView::Write(payload)]
}

/// What a failed or successful run of steps means to the caller: a failure
/// is an I/O error with the system's message.
pub open spec fn io_result(file: Result<(), String>) -> Result<(), ErrorView> {
    match file {
        Ok(_) => Ok(()),
        Err(message) => Err(ErrorView::Io(message@)),
    }
}

/// The steps that empty the backing file.
pub fn clear_steps() -> (steps: Vec<FileStep>)
    ensures
        step_views(steps@) == clear_plan(),
{
    let mut steps: Vec<FileStep> = Vec::new();
    steps.push(FileStep::Flush);
    steps.push(FileStep::Truncate);
    steps.push(FileStep::Rewind);
    assert(step_views(steps@) =~= clear_plan());
    steps
}

/// The steps that replace the content of the backing file by `payload`.
pub fn replace_steps(payload: Vec<u8>) -> (steps: Vec<FileStep>)
    ensures
        step_views(steps@) == replace_plan(payload@),
{
    let mut steps: Vec<FileStep> = Vec::new();
    steps.push(FileStep::Truncate);
    steps.push(FileStep::Rewind);
    steps.push(FileStep::Write(payload));
    assert(step_views(steps@) =~= replace_plan(payload@));
    steps
}

/// Turns the outcome of a run of steps into the library's result.
pub fn io_outcome(file: Result<(), String>) -> (outcome: Result<(), TodoError>)
    ensures
        match outcome {
            Ok(_) => io_result(file) == Ok::<(), ErrorView>(()),
            Err(error) => io_result(file) == Err::<(), ErrorView>(error@),
        },
{
    match file {
        Ok(_) => Ok(()),
        Err(message) => Err(TodoError::Io(message)),
    }
}

/// Whatever a file held and wherever its next write was to go: after the
/// steps that empty it, it holds no bytes and the next write goes to its
/// start.
pub proof fn lemma_clear_plan_empties(file: FileState)
    ensures
        after_steps(file, clear_plan()) == (FileState { bytes: Seq::empty(), position: 0 }),
{
    let plan = clear_plan();
    let one = plan.drop_last();
    let none = one.drop_last();
    assert(none.drop_last().len() == 0);
    reveal_with_fuel(after_steps, 4);
    assert(after_steps(file, none.drop_last()) == file);
}

/// Whatever a file held and wherever its next write was to go: after the
/// steps that replace its content, it holds the payload and nothing else, and
/// the next write goes behind it.
pub proof fn lemma_replace_plan_overwrites(file: FileState, payload: Seq<u8>)
    ensures
        after_steps(file, replace_plan(payload)) == (FileState {
            bytes: payload,
            position: payload.len(),
        }),
{
    let plan = replace_plan(payload);
    let two = plan.drop_last();
    let one = two.drop_last();
    assert(one.drop_last().len() == 0);
    reveal_with_fuel(after_steps, 4);
    assert(after_steps(file, one.drop_last()) == file);
    let cut = FileState { bytes: Seq::<u8>::empty(), position: 0 };
    assert(after_steps(file, two) == cut);
    assert(overwritten(cut.bytes, cut.position, payload) =~= payload);
}

} // verus!
