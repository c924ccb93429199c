//! Operations on text that the standard library performs for this crate.

use vstd::prelude::*;

verus! {

/// What `str::to_lowercase` returns for `text`: its lowercase form by the
/// Unicode case mappings.
pub uninterp spec fn lowercase_of(text: Seq<char>) -> Seq<char>;

/// What `str::trim` returns for `text`: the text without its leading and
/// trailing white space.
pub uninterp spec fn trimmed_of(text: Seq<char>) -> Seq<char>;

/// What `str::parse::<u64>` returns for `text`, `None` standing for its error.
pub uninterp spec fn number_of(text: Seq<char>) -> Option<u64>;

/// `needle` occurs in `text` as a run of consecutive characters. The empty
/// text occurs in every text.
pub open spec fn occurs_in(needle: Seq<char>, text: Seq<char>) -> bool {
    exists|start: int|
        0 <= start <= text.len() - needle.len() && #[trigger] text.subrange(
            start,
            start + needle.len(),
        ) == needle
}

/// Calls `str::to_lowercase`. The result is only named: the case mappings
/// are those of the standard library.
#[verifier::external_body]
pub(crate) fn lowercase(text: &str) -> (lower: String)
    ensures
        lower@ == lowercase_of(text@),
{
    text.to_lowercase()
}

/// Calls `str::trim`. The result is only named: which characters count as
/// white space is decided by the standard library.
#[verifier::external_body]
pub(crate) fn trimmed(text: &str) -> (inner: &str)
    ensures
        inner@ == trimmed_of(text@),
{
    text.trim()
}

/// Calls `str::contains` with a string pattern, which is documented to say
/// whether the pattern matches a sub-slice of the text.
#[verifier::external_body]
pub(crate) fn contains(text: &str, needle: &str) -> (found: bool)
    ensures
        found == occurs_in(needle@, text@),
{
    text.contains(needle)
}

/// Calls `str::parse::<u64>` and drops the error's detail.
#[verifier::external_body]
pub(crate) fn parse_number(text: &str) -> (number: Option<u64>)
    ensures
        number == number_of(text@),
{
    text.parse::<u64>().ok()
}

/// Whether two texts hold the same characters.
pub(crate) fn same_text(left: &str, right: &str) -> (same: bool)
    ensures
        same == (left@ == right@),
{
    let a = left.to_owned();
    let b = right.to_owned();
    a == b
}

/// A text occurs in any text built around it.
pub proof fn lemma_occurs_in_the_middle(before: Seq<char>, needle: Seq<char>, after: Seq<char>)
    ensures
        occurs_in(needle, before + needle + after),
{
    let text = before + needle + after;
    let start = before.len() as int;
    assert(text.subrange(start, start + needle.len()) =~= needle);
}

} // verus!
