//! Where the backing file lies.
//!
//! A todo list is kept in a file with the extension `todo`. A path that
//! names a directory stands for the file `todo.todo` in it; any other path
//! gets the extension `todo` unless it has it already. Taking paths apart
//! and putting them together is the work of `std::path`, which follows the
//! rules of the system that the library is built for.

use crate::text::same_text;
use std::path::{Path, PathBuf};
use vstd::prelude::*;

verus! {

/// What `Path::extension` returns for `path`.
pub uninterp spec fn extension_of(path: Seq<char>) -> Option<Seq<char>>;

/// The path that `PathBuf::set_extension` leaves when `path` is given the
/// extension `extension`; `None` if that path is no text.
pub uninterp spec fn with_extension_of(path: Seq<char>, extension: Seq<char>) -> Option<Seq<char>>;

/// The path that `PathBuf::push` leaves when `name` is pushed onto
/// `directory`; `None` if that path is no text.
pub uninterp spec fn joined_of(directory: Seq<char>, name: Seq<char>) -> Option<Seq<char>>;

/// The text holds no character that separates the parts of a path.
pub open spec fn has_no_separator(text: Seq<char>) -> bool {
    forall|i: int| 0 <= i < text.len() ==> text[i] != '/' && text[i] != '\\'
}

/// The characters of a text that may be missing.
pub open spec fn optional_text(text: Option<String>) -> Option<Seq<char>> {
    match text {
        Some(text) => Some(text@),
        None => None,
    }
}

/// Calls `Path::extension`. The result is only named.
#[verifier::external_body]
fn extension(path: &str) -> (found: Option<String>)
    ensures
        optional_text(found) == extension_of(path@),
{
    Path::new(path).extension().map(|found| found.to_string_lossy().into_owned())
}

/// Calls `PathBuf::set_extension`, which panics on an extension that holds a
/// path separator. The result is only named.
#[verifier::external_body]
fn with_extension(path: &str, extension: &str) -> (changed: Option<String>)
    requires
        has_no_separator(extension@),
    ensures
        optional_text(changed) == with_extension_of(path@, extension@),
{
    let mut buffer = PathBuf::from(path);
    buffer.set_extension(extension);
    buffer.to_str().map(|text| text.to_string())
}

/// Calls `PathBuf::push`. The result is only named.
#[verifier::external_body]
fn joined(directory: &str, name: &str) -> (whole: Option<String>)
    ensures
        optional_text(whole) == joined_of(directory@, name@),
{
    let mut buffer = PathBuf::from(directory);
    buffer.push(name);
    buffer.to_str().map(|text| text.to_string())
}

/// The path of the backing file for a path that the user gave. `is_dir`
/// says whether the given path names a directory.
pub open spec fn fixed_path(path: Seq<char>, is_dir: bool) -> Option<Seq<char>> {
    if is_dir {
        joined_of(path, "todo.todo"@)
    } else if extension_of(path) == Some("todo"@) {
        Some(path)
    } else {
        with_extension_of(path, "todo"@)
    }
}

/// What to do with a path that the user gave.
#[derive(Clone, Copy, Debug, PartialEq, Eq, Structural)]
pub enum PathFix {
    /// The path names a directory: the file `todo.todo` in it is meant.
    AppendFileName,
    /// The path names a file without the extension `todo`: it gets it.
    SetExtension,
    /// The path is taken as it is.
    Keep,
}

/// Decides what to do with a path, given whether it names a directory and
/// what extension it has.
pub fn choose_fix(is_dir: bool, extension: Option<&str>) -> (fix: PathFix)
    ensures
        fix == if is_dir {
            PathFix::AppendFileName
        } else if extension is Some && extension->Some_0@ == "todo"@ {
            PathFix::Keep
        } else {
            PathFix::SetExtension
        },
{
    if is_dir {
        PathFix::AppendFileName
    } else {
        match extension {
            Some(found) => {
                if same_text(found, "todo") {
                    PathFix::Keep
                } else {
                    PathFix::SetExtension
                }
            },
            None => PathFix::SetExtension,
        }
    }
}

/// The path of the backing file for a path that the user gave; `None` if
/// that path cannot be written as text.
pub fn fix(path: String, is_dir: bool) -> (fixed: Option<String>)
    ensures
        optional_text(fixed) == fixed_path(path@, is_dir),
{
    let found = extension(path.as_str());
    let found_text = match &found {
        Some(text) => Some(text.as_str()),
        None => None,
    };
    match choose_fix(is_dir, found_text) {
        PathFix::AppendFileName => joined(path.as_str(), "todo.todo"),
        PathFix::SetExtension => {
            proof {
                reveal_strlit("todo");
            }
            with_extension(path.as_str(), "todo")
        },
        PathFix::Keep => Some(path),
    }
}

/// The path of the backing file when the user gave none: the file
/// `todo.todo` in the directory for the user's data.
pub fn default_path(data_dir: &str) -> (path: Option<String>)
    ensures
        optional_text(path) == joined_of(data_dir@, "todo.todo"@),
{
    joined(data_dir, "todo.todo")
}

} // verus!
