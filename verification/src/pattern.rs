//! Regular expressions. Matching is done by the `regex` crate. What it
//! returns is given a name here and taken on trust. Nothing in this
//! library says what a pattern matches, but that the text of a capture
//! group is a part of the text that was searched.

use crate::chars::is_part_of;
use regex::Regex;
use vstd::prelude::*;

verus! {

/// What matching `pattern` against `haystack` gives for the capture group
/// `group`: `None` where `pattern` is no regular expression or matches
/// nowhere in `haystack`; else, for the first match, `Some(None)` where
/// the group took no part in it and `Some(Some(text))` where it matched
/// `text`.
pub uninterp spec fn regex_capture_result(
    pattern: Seq<char>,
    haystack: Seq<char>,
    group: int,
) -> Option<Option<Seq<char>>>;

/// What replacing every match of `pattern` in `haystack` by the expansion
/// of `replacement` gives, or `None` where `pattern` is no regular
/// expression.
pub uninterp spec fn regex_replace_all_result(
    pattern: Seq<char>,
    haystack: Seq<char>,
    replacement: Seq<char>,
) -> Option<Seq<char>>;

/// What a capture gave, as sequences of characters.
pub open spec fn capture_view(found: Option<Option<String>>) -> Option<Option<Seq<char>>> {
    match found {
        None => None,
        Some(None) => Some(None),
        Some(Some(text)) => Some(Some(text@)),
    }
}

/// What a replacement gave, as a sequence of characters.
pub open spec fn replaced_view(replaced: Option<String>) -> Option<Seq<char>> {
    match replaced {
        None => None,
        Some(text) => Some(text@),
    }
}

/// `haystack` with every match of `pattern` replaced by the expansion of
/// `replacement`; `haystack` itself where `pattern` is no regular
/// expression.
pub open spec fn matches_replaced(
    pattern: Seq<char>,
    haystack: Seq<char>,
    replacement: Seq<char>,
) -> Seq<char> {
    match regex_replace_all_result(pattern, haystack, replacement) {
        Some(text) => text,
        None => haystack,
    }
}

/// Compiles `pattern` with `Regex::new`, searches `haystack` with
/// `Regex::captures`, asks `Captures::get` for the group `group` and takes
/// its text with `Match::as_str`: the text that the group matched in the
/// first match. Not proved: the body is not verified. The contract claims
/// of the outcome that it is the one named above, which depends on the
/// three arguments alone, and that the text is a part of `haystack`, as
/// `Match::as_str` hands out a slice of the haystack.
#[verifier::external_body]
pub(crate) fn regex_capture(pattern: &str, haystack: &str, group: usize) -> (found: Option<
    Option<String>,
>)
    ensures
        capture_view(found) == regex_capture_result(pattern@, haystack@, group as int),
        capture_view(found) matches Some(Some(text)) ==> is_part_of(text, haystack@),
{
    match Regex::new(pattern) {
        Ok(regex) => match regex.captures(haystack) {
            Some(captures) => match captures.get(group) {
                Some(text) => Some(Some(text.as_str().to_string())),
                None => Some(None),
            },
            None => None,
        },
        Err(_) => None,
    }
}

/// Compiles `pattern` with `Regex::new` and calls `Regex::replace_all`:
/// `haystack` with every match of `pattern`, none overlapping another,
/// replaced by `replacement`, in which `$$` stands for a dollar sign and
/// `$1` for what the first group matched. Not proved: the body is not
/// verified, and the contract claims of the outcome only that it is the
/// one named above, which depends on the three arguments alone.
#[verifier::external_body]
pub(crate) fn regex_replace_all(pattern: &str, haystack: &str, replacement: &str) -> (replaced:
    Option<String>)
    ensures
        replaced_view(replaced) == regex_replace_all_result(pattern@, haystack@, replacement@),
{
    match Regex::new(pattern) {
        Ok(regex) => Some(regex.replace_all(haystack, replacement).into_owned()),
        Err(_) => None,
    }
}

/// The text that a replacement gave, or `haystack` where it gave none.
pub fn replaced_or_unchanged(haystack: &str, replaced: Option<String>) -> (out: String)
    ensures
        out@ == match replaced_view(replaced) {
            Some(text) => text,
            None => haystack@,
        },
{
    match replaced {
        Some(text) => text,
        None => haystack.to_owned(),
    }
}

/// `haystack` with every match of `pattern` replaced by the expansion of
/// `replacement`.
pub fn replace_matches(pattern: &str, haystack: &str, replacement: &str) -> (out: String)
    ensures
        out@ == matches_replaced(pattern@, haystack@, replacement@),
{
    replaced_or_unchanged(haystack, regex_replace_all(pattern, haystack, replacement))
}

} // verus!
