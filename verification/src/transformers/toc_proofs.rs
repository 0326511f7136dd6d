//! What holds of the removal of table-of-contents markers: which lines are
//! left out and which are written as they stand.

use crate::lines::{first_newline, lemma_first_newline, lemma_line_ends, without_newline};
use crate::transformers::toc::{
    blanks_end, holds_marker, is_blank, is_marker_line, markers_removed, COMMENT_CLOSE,
    COMMENT_OPEN, TOC_TOKEN,
};
use vstd::prelude::*;

verus! {

/// Whether `s` holds no `<`.
pub open spec fn without_angle(s: Seq<char>) -> bool {
    forall|i: int| 0 <= i < s.len() ==> #[trigger] s[i] != '<'
}

/// What stands between an index and the end of the spaces and tabs behind
/// it is spaces and tabs.
proof fn lemma_blanks_end(s: Seq<char>, from: int)
    requires
        0 <= from <= s.len(),
    ensures
        from <= blanks_end(s, from) <= s.len(),
        forall|i: int| from <= i < blanks_end(s, from) ==> is_blank(#[trigger] s[i]),
    decreases s.len() - from,
{
    if from < s.len() && is_blank(s[from]) {
        lemma_blanks_end(s, from + 1);
    }
}

/// Every marker line is removed with its line feed.
pub proof fn lemma_marker_line_removed(line: Seq<char>, rest: Seq<char>)
    requires
        without_newline(line),
        is_marker_line(line),
    ensures
        markers_removed(line + seq!['\n'] + rest) == markers_removed(rest),
{
    lemma_line_ends(line, rest);
}

/// A line that does not hold the marker and nothing else is kept, with its
/// line feed, in its place.
pub proof fn lemma_other_line_kept(line: Seq<char>, rest: Seq<char>)
    requires
        without_newline(line),
        !holds_marker(line),
    ensures
        markers_removed(line + seq!['\n'] + rest) == line + seq!['\n'] + markers_removed(rest),
{
    lemma_line_ends(line, rest);
}

/// The last line, where no line feed ends it, is removed if it is a marker
/// line and kept if it is none.
pub proof fn lemma_last_line(line: Seq<char>)
    requires
        without_newline(line),
    ensures
        markers_removed(line) == if is_marker_line(line) {
            Seq::<char>::empty()
        } else {
            line
        },
{
    lemma_first_newline(line);
    if line.len() > 0 && first_newline(line) < line.len() {
        assert(line[first_newline(line)] == '\n');
    }
}

/// Behind the marker stands nothing but spaces and tabs: a line that holds
/// the marker and nothing else ends in the `>` that closes the comment, or
/// in a space or a tab.
pub proof fn lemma_nothing_behind_marker(line: Seq<char>)
    requires
        holds_marker(line),
    ensures
        line.len() > 0,
        line.last() == '>' || is_blank(line.last()),
{
    reveal_strlit("-->");
    let open = blanks_end(line, 0);
    let token = blanks_end(line, open + COMMENT_OPEN@.len());
    let close = blanks_end(line, token + TOC_TOKEN@.len());
    let end = close + COMMENT_CLOSE@.len();
    assert(line.subrange(close, end)[2] == line[close + 2]);
    lemma_blanks_end(line, end);
}

/// A document without `<` holds no marker and is left as it stands.
pub proof fn lemma_without_comments_unchanged(content: Seq<char>)
    requires
        without_angle(content),
    ensures
        markers_removed(content) == content,
    decreases content.len(),
{
    reveal_strlit("<!--");
    let n = first_newline(content);
    lemma_first_newline(content);
    if content.len() > 0 {
        let line = if n < content.len() {
            content.take(n)
        } else {
            content
        };
        if holds_marker(line) {
            let open = blanks_end(line, 0);
            assert(line.subrange(open, open + 4)[0] == line[open]);
            assert(line[open] == content[open]);
        }
        if n < content.len() {
            let rest = content.skip(n + 1);
            assert forall|i: int| 0 <= i < rest.len() implies #[trigger] rest[i] != '<' by {
                assert(rest[i] == content[i + n + 1]);
            }
            lemma_without_comments_unchanged(rest);
            assert(content == content.take(n + 1) + rest);
        }
    }
}

} // verus!
