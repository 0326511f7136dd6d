//! Admonition blocks. A block opens at a fence line whose info string is
//! `admonish` and closes at the first bare fence that is indented as the
//! opening one. The scanner knows one level only: inside a block no other
//! block opens.

use crate::chars::{
    append_chars, body_of, chars_of, copy_range, indent_length, indent_of, is_part_of,
    is_white_space, is_whitespace, lemma_indent_len, matches_at, occurs_at, same_chars, string_of,
};
use crate::lines::{breaks_of, joined, lines_of};
use crate::pattern::{capture_view, regex_capture, regex_capture_result};
use vstd::prelude::*;

verus! {

/// The token that opens and closes a fenced block.
pub const FENCE_TOKEN: &'static str = "```";

/// The fence token and the word that makes the block an admonition.
pub const ADMONISH_MARKER: &'static str = "```admonish";

/// The pattern of an opening fence: the marker, then whitespace and a
/// keyword, then whitespace and anything, each of the two or neither. Its
/// first group is the keyword.
pub const OPENING_PATTERN: &'static str = "^```admonish(?:\\s+(\\w+))?(?:\\s.*)?$";

/// The token that opens and closes a container block.
pub const CONTAINER_TOKEN: &'static str = ":::";

/// The kind of an admonition that names none.
pub const DEFAULT_KIND: &'static str = "note";

/// Where the scanner stands between two lines: outside any admonition, or
/// inside one whose opening fence had the given indentation.
pub enum Fence {
    Outside,
    Inside(Seq<char>),
}

/// Where the scanner stands between two lines.
#[derive(Debug, PartialEq, Eq)]
pub enum FenceState {
    /// Outside any admonition.
    Outside,
    /// Inside an admonition whose opening fence had this indentation.
    Inside(Vec<char>),
}

impl View for FenceState {
    type V = Fence;

    open spec fn view(&self) -> Fence {
        match self {
            FenceState::Outside => Fence::Outside,
            FenceState::Inside(indent) => Fence::Inside(indent@),
        }
    }
}

/// The characters of a kind, if there is one.
pub open spec fn kind_view(kind: Option<Vec<char>>) -> Option<Seq<char>> {
    match kind {
        None => None,
        Some(word) => Some(word@),
    }
}

/// Whether `body` is a fence whose info string is `admonish`: the marker,
/// alone or followed by whitespace.
pub open spec fn names_admonish(body: Seq<char>) -> bool {
    let marker = ADMONISH_MARKER@;
    occurs_at(body, 0, marker) && (body.len() == marker.len() || is_white_space(
        body[marker.len() as int],
    ))
}

/// The kind that a match of the opening pattern stands for: the keyword
/// that it captured, the default kind where it captured none.
pub open spec fn kind_of_capture(capture: Option<Option<Seq<char>>>) -> Option<Seq<char>> {
    match capture {
        None => None,
        Some(None) => Some(DEFAULT_KIND@),
        Some(Some(word)) => Some(word),
    }
}

/// What the opening pattern captures in `body`: `None` where it does not
/// match; else the keyword, which is a part of `body`, or `Some(None)`
/// where the match holds no keyword.
pub open spec fn keyword_in(body: Seq<char>) -> Option<Option<Seq<char>>> {
    match regex_capture_result(OPENING_PATTERN@, body, 1) {
        Some(Some(word)) => if is_part_of(word, body) {
            Some(Some(word))
        } else {
            None
        },
        other => other,
    }
}

/// The kind of the admonition that a line with the body `body` opens, if
/// it opens one: `body` names `admonish`, and the opening pattern matches
/// it.
pub open spec fn kind_of_opening(body: Seq<char>) -> Option<Seq<char>> {
    if names_admonish(body) {
        kind_of_capture(keyword_in(body))
    } else {
        None
    }
}

/// Whether `line` closes a block that was opened at the indentation
/// `indent`: it is a bare fence with that indentation.
pub open spec fn closes(line: Seq<char>, indent: Seq<char>) -> bool {
    body_of(line) == FENCE_TOKEN@ && indent_of(line) == indent
}

/// The container line that opens a block of the kind `kind`, indented as
/// `line` is.
pub open spec fn container_opening(line: Seq<char>, kind: Seq<char>) -> Seq<char> {
    indent_of(line) + CONTAINER_TOKEN@ + kind
}

/// The container line that closes a block, indented as `line` is.
pub open spec fn container_closing(line: Seq<char>) -> Seq<char> {
    indent_of(line) + CONTAINER_TOKEN@
}

/// The state after `line` and the line that is written for it, where
/// `opening` is the kind of the admonition that the line opens, if any.
/// Outside a block, a line that opens one is written as the opening
/// container line; inside a block, the line that closes it is written as
/// the closing container line; any other line is written as it stands.
pub open spec fn line_rewritten_with(state: Fence, line: Seq<char>, opening: Option<Seq<char>>) -> (
    Fence,
    Seq<char>,
) {
    match state {
        Fence::Outside => match opening {
            Some(kind) => (Fence::Inside(indent_of(line)), container_opening(line, kind)),
            None => (state, line),
        },
        Fence::Inside(indent) => if closes(line, indent) {
            (Fence::Outside, container_closing(line))
        } else {
            (state, line)
        },
    }
}

/// The state after `line` and the line that is written for it.
pub open spec fn line_rewritten(state: Fence, line: Seq<char>) -> (Fence, Seq<char>) {
    line_rewritten_with(state, line, kind_of_opening(body_of(line)))
}

/// The lines that are written for `lines`, scanned from `state`.
pub open spec fn lines_rewritten(state: Fence, lines: Seq<Seq<char>>) -> Seq<Seq<char>>
    decreases lines.len(),
{
    if lines.len() == 0 {
        Seq::empty()
    } else {
        let step = line_rewritten(state, lines.first());
        seq![step.1] + lines_rewritten(step.0, lines.drop_first())
    }
}

/// The document with its admonition blocks rewritten to container blocks:
/// what is written for its lines, each followed by the line break that
/// followed the line in `content`.
pub open spec fn admonitions_rewritten(content: Seq<char>) -> Seq<char> {
    joined(lines_rewritten(Fence::Outside, lines_of(content)), breaks_of(content))
}

/// The kind that a match of the opening pattern stands for, where
/// `capture` is what the pattern's first group gave.
pub fn resolve_kind(capture: Option<Option<String>>) -> (kind: Option<Vec<char>>)
    ensures
        kind_view(kind) == kind_of_capture(capture_view(capture)),
{
    match capture {
        None => None,
        Some(None) => Some(chars_of(DEFAULT_KIND)),
        Some(Some(word)) => Some(chars_of(word.as_str())),
    }
}

/// Whether `body` is a fence whose info string is `admonish`.
pub fn is_admonish_fence(body: &Vec<char>) -> (named: bool)
    ensures
        named == names_admonish(body@),
{
    let marker = chars_of(ADMONISH_MARKER);
    matches_at(body, 0, &marker) && (body.len() == marker.len() || is_whitespace(
        body[marker.len()],
    ))
}

/// The kind of the admonition that a line with the body `body` opens, if
/// it opens one.
pub fn opening_kind(body: &Vec<char>) -> (kind: Option<Vec<char>>)
    ensures
        kind_view(kind) == kind_of_opening(body@),
{
    if is_admonish_fence(body) {
        let haystack = string_of(body, 0, body.len());
        assert(body@.subrange(0, body@.len() as int) == body@);
        resolve_kind(regex_capture(OPENING_PATTERN, haystack.as_str(), 1))
    } else {
        None
    }
}

/// One step of the scanner: the state after `line` and the line to write
/// for it, where `opening` is the kind of the admonition that the line
/// opens, if any.
pub fn rewrite_line(state: FenceState, line: &Vec<char>, opening: Option<Vec<char>>) -> (step: (
    FenceState,
    Vec<char>,
))
    ensures
        (step.0@, step.1@) == line_rewritten_with(state@, line@, kind_view(opening)),
{
    let width = indent_length(line);
    proof {
        lemma_indent_len(line@);
        assert(line@.subrange(0, line@.len() as int) == line@);
    }
    match state {
        FenceState::Outside => match opening {
            Some(kind) => {
                let indent = copy_range(line, 0, width);
                let mut written = copy_range(line, 0, width);
                append_chars(&mut written, &chars_of(CONTAINER_TOKEN));
                append_chars(&mut written, &kind);
                (FenceState::Inside(indent), written)
            },
            None => (FenceState::Outside, copy_range(line, 0, line.len())),
        },
        FenceState::Inside(block_indent) => {
            let indent = copy_range(line, 0, width);
            let body = copy_range(line, width, line.len());
            if same_chars(&body, &chars_of(FENCE_TOKEN)) && same_chars(&indent, &block_indent) {
                let mut written = indent;
                append_chars(&mut written, &chars_of(CONTAINER_TOKEN));
                (FenceState::Outside, written)
            } else {
                (FenceState::Inside(block_indent), copy_range(line, 0, line.len()))
            }
        },
    }
}

} // verus!
