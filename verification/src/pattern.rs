//! Line patterns, matched by the `regex` crate.

use vstd::prelude::*;

verus! {

/// `regex::Regex`, a compiled pattern. Nothing is known of what is inside.
#[verifier::external_type_specification]
#[verifier::external_body]
pub struct ExRegex(regex::Regex);

/// Whether `pattern` is one that the pattern engine compiles.
pub uninterp spec fn pattern_accepted(pattern: Seq<char>) -> bool;

/// The pattern text that a compiled pattern was made from.
pub uninterp spec fn pattern_text(compiled: regex::Regex) -> Seq<char>;

/// What `pattern` captures in `text`: nothing where it does not match, else
/// its groups in order, group 0 (the whole match) first, each absent where it
/// took no part in the match.
pub uninterp spec fn pattern_captures(pattern: Seq<char>, text: Seq<char>) -> Option<
    Seq<Option<Seq<char>>>,
>;

/// The view of a list of captured groups.
pub open spec fn groups_view(groups: Seq<Option<String>>) -> Seq<Option<Seq<char>>> {
    Seq::new(
        groups.len(),
        |i: int|
            match groups[i] {
                Some(s) => Some(s@),
                None => None,
            },
    )
}

/// The view of what a match attempt gave.
pub open spec fn captures_view(found: Option<Vec<Option<String>>>) -> Option<
    Seq<Option<Seq<char>>>,
> {
    match found {
        Some(groups) => Some(groups_view(groups@)),
        None => None,
    }
}

/// `regex::Regex::new`: compiles `pattern`, or reports that it cannot. The
/// outcome depends on the pattern text alone, and the compiled value keeps
/// that text (`Regex::as_str` gives it back).
#[verifier::external_body]
pub(crate) fn compile(pattern: &str) -> (out: Option<regex::Regex>)
    ensures
        out is Some == pattern_accepted(pattern@),
        out is Some ==> pattern_text(out->0) == pattern@,
{
    regex::Regex::new(pattern).ok()
}

/// `regex::Regex::captures`: the leftmost match of the pattern in `text` with
/// its capture groups, each handed out as an owned string. The outcome
/// depends on the pattern text and on `text` alone.
#[verifier::external_body]
pub(crate) fn captures(compiled: &regex::Regex, text: &str) -> (out: Option<Vec<Option<String>>>)
    ensures
        captures_view(out) == pattern_captures(pattern_text(*compiled), text@),
{
    compiled.captures(text).map(
        |found| found.iter().map(|group| group.map(|m| m.as_str().to_string())).collect(),
    )
}

/// Group `i` of a match, absent also where the match has no such group.
pub open spec fn group(groups: Seq<Option<Seq<char>>>, i: int) -> Option<Seq<char>> {
    if 0 <= i < groups.len() {
        groups[i]
    } else {
        None
    }
}

/// The view of an optional string slice.
pub open spec fn slice_view(text: Option<&str>) -> Option<Seq<char>> {
    match text {
        Some(s) => Some(s@),
        None => None,
    }
}

/// Group `i` of a match, absent also where the match has no such group.
pub fn group_at(groups: &Vec<Option<String>>, i: usize) -> (out: Option<&str>)
    ensures
        slice_view(out) == group(groups_view(groups@), i as int),
{
    if i < groups.len() {
        match &groups[i] {
            Some(s) => Some(s.as_str()),
            None => None,
        }
    } else {
        None
    }
}

} // verus!
