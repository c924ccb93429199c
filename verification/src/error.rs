//! The failures that the library reports.

use vstd::prelude::*;
use vstd::string::StringExecFns;

verus! {

/// A failure and the characters of its message.
pub enum ErrorView {
    Io(Seq<char>),
    Format(Seq<char>),
    Input(Seq<char>),
}

/// Why an operation failed.
#[derive(Debug)]
pub enum TodoError {
    /// The backing file could not be opened, read, cut or written.
    Io(String),
    /// What the backing file holds is no JSON list of records.
    Format(String),
    /// The terminal could not be used for a pick list.
    Input(String),
}

impl View for TodoError {
    type V = ErrorView;

    open spec fn view(&self) -> ErrorView {
        match self {
            TodoError::Io(message) => ErrorView::Io(message@),
            TodoError::Format(message) => ErrorView::Format(message@),
            TodoError::Input(message) => ErrorView::Input(message@),
        }
    }
}

/// The line that reports a failure: its kind, then its message.
pub open spec fn report(error: ErrorView) -> Seq<char> {
    match error {
        ErrorView::Io(message) => "I/O error: "@ + message,
        ErrorView::Format(message) => "format error: "@ + message,
        ErrorView::Input(message) => "input error: "@ + message,
    }
}

impl TodoError {
    /// The message that came with the failure.
    pub fn message(&self) -> (message: &str)
        ensures
            self@ == ErrorView::Io(message@) || self@ == ErrorView::Format(message@) || self@
                == ErrorView::Input(message@),
    {
        match self {
            TodoError::Io(message) => message.as_str(),
            TodoError::Format(message) => message.as_str(),
            TodoError::Input(message) => message.as_str(),
        }
    }

    /// Renders the failure as one line for the error stream.
    pub fn render(&self) -> (line: String)
        ensures
            line@ == report(self@),
    {
        let mut line = match self {
            TodoError::Io(_) => String::from_str("I/O error: "),
            TodoError::Format(_) => String::from_str("format error: "),
            TodoError::Input(_) => String::from_str("input error: "),
        };
        line.append(self.message());
        line
    }
}

} // verus!
