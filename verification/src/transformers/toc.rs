//! Table-of-contents markers: lines that hold nothing but the comment
//! `<!-- toc -->`, with spaces or tabs before it, in it and behind it. The
//! pass reads the document line by line; a line is what stands between two
//! line feeds. A marker line is left out with its line feed, and any other
//! line is written as it stands.

use crate::chars::{append_chars, chars_of, copy_range, matches_at, occurs_at, string_of};
use crate::lines::{find_newline, first_newline, lemma_first_newline};
use crate::pattern::{capture_view, regex_capture, regex_capture_result};
use vstd::prelude::*;

verus! {

/// What opens a comment.
pub const COMMENT_OPEN: &'static str = "<!--";

/// What a marker holds.
pub const TOC_TOKEN: &'static str = "toc";

/// What closes a comment.
pub const COMMENT_CLOSE: &'static str = "-->";

/// The pattern of a marker line, from its start to its end: spaces or
/// tabs, a comment that holds `toc` between spaces or tabs, spaces or
/// tabs.
pub const TOC_MARKER_PATTERN: &'static str = "^[ \\t]*<!--[ \\t]*toc[ \\t]*-->[ \\t]*$";

/// Whether `c` is a space or a tab.
pub open spec fn is_blank(c: char) -> bool {
    c == ' ' || c == '\t'
}

/// The index behind the spaces and tabs that stand in `s` from `from` on.
pub open spec fn blanks_end(s: Seq<char>, from: int) -> int
    decreases s.len() - from,
{
    if 0 <= from < s.len() && is_blank(s[from]) {
        blanks_end(s, from + 1)
    } else {
        from
    }
}

/// Whether `line` holds the marker and nothing else: spaces or tabs, the
/// opening of a comment, spaces or tabs, `toc`, spaces or tabs, the
/// closing of the comment, spaces or tabs, and then the end of the line.
pub open spec fn holds_marker(line: Seq<char>) -> bool {
    let open = blanks_end(line, 0);
    let token = blanks_end(line, open + COMMENT_OPEN@.len());
    let close = blanks_end(line, token + TOC_TOKEN@.len());
    &&& occurs_at(line, open, COMMENT_OPEN@)
    &&& occurs_at(line, token, TOC_TOKEN@)
    &&& occurs_at(line, close, COMMENT_CLOSE@)
    &&& blanks_end(line, close + COMMENT_CLOSE@.len()) == line.len()
}

/// Whether `line` is a marker line: it holds the marker and nothing else,
/// and the marker pattern matches it.
pub open spec fn is_marker_line(line: Seq<char>) -> bool {
    holds_marker(line) && regex_capture_result(TOC_MARKER_PATTERN@, line, 0) is Some
}

/// The document without its marker lines. Each line but a marker line is
/// written as it stands, with the line feed that ends it; of a marker line
/// nothing is written, nor of its line feed.
pub open spec fn markers_removed(content: Seq<char>) -> Seq<char>
    decreases content.len(),
{
    let n = first_newline(content);
    if content.len() == 0 {
        content
    } else if 0 <= n < content.len() {
        (if is_marker_line(content.take(n)) {
            Seq::empty()
        } else {
            content.take(n + 1)
        }) + markers_removed(content.skip(n + 1))
    } else if is_marker_line(content) {
        Seq::empty()
    } else {
        content
    }
}

/// The index behind the spaces and tabs that stand in `line` from `from`
/// on.
pub fn skip_blanks(line: &Vec<char>, from: usize) -> (end: usize)
    requires
        from <= line.len(),
    ensures
        from <= end <= line.len(),
        end == blanks_end(line@, from as int),
{
    let mut end: usize = from;
    while end < line.len() && (line[end] == ' ' || line[end] == '\t')
        invariant
            from <= end <= line.len(),
            blanks_end(line@, from as int) == blanks_end(line@, end as int),
        decreases line.len() - end,
    {
        end += 1;
    }
    end
}

/// Whether `line` holds the marker and nothing else.
pub fn is_toc_marker(line: &Vec<char>) -> (held: bool)
    ensures
        held == holds_marker(line@),
{
    let opening = chars_of(COMMENT_OPEN);
    let word = chars_of(TOC_TOKEN);
    let closing = chars_of(COMMENT_CLOSE);
    let open = skip_blanks(line, 0);
    if !matches_at(line, open, &opening) {
        return false;
    }
    let token = skip_blanks(line, open + opening.len());
    if !matches_at(line, token, &word) {
        return false;
    }
    let close = skip_blanks(line, token + word.len());
    if !matches_at(line, close, &closing) {
        return false;
    }
    skip_blanks(line, close + closing.len()) == line.len()
}

/// Whether a search for the marker pattern found it, where `capture` is
/// what the search gave for the whole match.
pub fn confirms_marker(capture: Option<Option<String>>) -> (found: bool)
    ensures
        found == (capture_view(capture) is Some),
{
    capture.is_some()
}

/// Whether `line` is a marker line.
pub fn is_toc_marker_line(line: &Vec<char>) -> (marker: bool)
    ensures
        marker == is_marker_line(line@),
{
    if is_toc_marker(line) {
        let haystack = string_of(line, 0, line.len());
        assert(line@.subrange(0, line@.len() as int) == line@);
        confirms_marker(regex_capture(TOC_MARKER_PATTERN, haystack.as_str(), 0))
    } else {
        false
    }
}

/// Appends to `out` what is written for the line of `chars` that begins at
/// `from`, and returns the index at which the line behind it begins, or
/// the length of `chars` where it is the last.
pub fn keep_or_drop_line(chars: &Vec<char>, from: usize, out: &mut Vec<char>) -> (next: usize)
    requires
        from < chars.len(),
    ensures
        from < next <= chars.len(),
        final(out)@ + markers_removed(chars@.skip(next as int)) == old(out)@ + markers_removed(
            chars@.skip(from as int),
        ),
{
    let ghost rest = chars@.skip(from as int);
    let end = find_newline(chars, from);
    let next = if end < chars.len() {
        end + 1
    } else {
        end
    };
    let line = copy_range(chars, from, end);
    proof {
        lemma_first_newline(rest);
        assert(rest.take(end - from) == line@);
        assert(rest.take(next - from) == chars@.subrange(from as int, next as int));
        assert(rest.skip(next - from) == chars@.skip(next as int));
        if end == chars.len() {
            assert(rest == line@);
            assert(markers_removed(chars@.skip(next as int)) == Seq::<char>::empty());
        }
    }
    if !is_toc_marker_line(&line) {
        let kept = copy_range(chars, from, next);
        append_chars(out, &kept);
    }
    next
}

} // verus!
