//! What holds of the rewriting of admonition blocks: which lines are
//! rewritten and which are left as they stand.

use crate::chars::{body_of, indent_len, indent_of, lemma_indent_len, occurs_at};
use crate::lines::{
    are_lines, breaks_of, fits, lemma_lines_are_lines, lemma_lines_joined, lemma_lines_of_joined,
    lines_of,
};
use crate::transformers::admonition::{
    admonitions_rewritten, closes, container_closing, container_opening, keyword_in,
    kind_of_opening, line_rewritten, lines_rewritten, names_admonish, Fence, CONTAINER_TOKEN,
    DEFAULT_KIND,
};
use vstd::prelude::*;

verus! {

/// The state in which the scan of `lines`, begun in `state`, reaches line
/// `at`.
pub open spec fn state_at(state: Fence, lines: Seq<Seq<char>>, at: int) -> Fence
    decreases at,
{
    if at <= 0 || at > lines.len() {
        state
    } else {
        line_rewritten(state_at(state, lines, at - 1), lines[at - 1]).0
    }
}

/// The line that is written for line `at` of `lines`, in a scan begun
/// outside any block.
pub open spec fn written_at(lines: Seq<Seq<char>>, at: int) -> Seq<char> {
    line_rewritten(state_at(Fence::Outside, lines, at), lines[at]).1
}

/// Whether `line` opens an admonition where none is open.
pub open spec fn opens(line: Seq<char>) -> bool {
    kind_of_opening(body_of(line)) is Some
}

/// Whether lines `block.0` and `block.1` of `lines` are the two fences of
/// one admonition block: the first opens an admonition, the second is the
/// first line behind it that closes a block of its indentation.
pub open spec fn is_block(lines: Seq<Seq<char>>, block: (int, int)) -> bool {
    &&& 0 <= block.0 < block.1 < lines.len()
    &&& opens(lines[block.0])
    &&& closes(lines[block.1], indent_of(lines[block.0]))
    &&& forall|k: int|
        block.0 < k < block.1 ==> !closes(#[trigger] lines[k], indent_of(lines[block.0]))
}

/// Whether line `at` is the opening fence of one of `blocks`.
pub open spec fn is_opening_of(blocks: Seq<(int, int)>, at: int) -> bool {
    exists|b: int| 0 <= b < blocks.len() && (#[trigger] blocks[b]).0 == at
}

/// Whether line `at` is the closing fence of one of `blocks`.
pub open spec fn is_closing_of(blocks: Seq<(int, int)>, at: int) -> bool {
    exists|b: int| 0 <= b < blocks.len() && (#[trigger] blocks[b]).1 == at
}

/// Whether line `at` belongs to one of `blocks`, fences included.
pub open spec fn is_within(blocks: Seq<(int, int)>, at: int) -> bool {
    exists|b: int| 0 <= b < blocks.len() && (#[trigger] blocks[b]).0 <= at <= blocks[b].1
}

/// Whether `blocks` are the admonition blocks of `lines`: each is a block,
/// they follow one another, and no line outside them opens an admonition.
pub open spec fn are_blocks(lines: Seq<Seq<char>>, blocks: Seq<(int, int)>) -> bool {
    &&& forall|b: int| 0 <= b < blocks.len() ==> is_block(lines, #[trigger] blocks[b])
    &&& forall|a: int, b: int|
        0 <= a < b < blocks.len() ==> (#[trigger] blocks[a]).1 < (#[trigger] blocks[b]).0
    &&& forall|k: int|
        0 <= k < lines.len() && opens(#[trigger] lines[k]) ==> is_within(blocks, k)
}

/// The line that stands for line `at` of a document whose admonition
/// blocks are `blocks`: the container lines for the two fences of a block,
/// the line itself anywhere else.
pub open spec fn expected_at(lines: Seq<Seq<char>>, blocks: Seq<(int, int)>, at: int) -> Seq<
    char,
> {
    if is_opening_of(blocks, at) {
        container_opening(lines[at], kind_of_opening(body_of(lines[at])).unwrap())
    } else if is_closing_of(blocks, at) {
        container_closing(lines[at])
    } else {
        lines[at]
    }
}

proof fn lemma_state_at_shift(state: Fence, lines: Seq<Seq<char>>, at: int)
    requires
        0 <= at < lines.len(),
    ensures
        state_at(state, lines, at + 1) == state_at(
            line_rewritten(state, lines.first()).0,
            lines.drop_first(),
            at,
        ),
    decreases at,
{
    assert(state_at(state, lines, at + 1) == line_rewritten(
        state_at(state, lines, at),
        lines[at],
    ).0);
    if at > 0 {
        lemma_state_at_shift(state, lines, at - 1);
    }
}

/// One line is written for each line, and which one depends on the line
/// and on the state in which the scan reaches it.
pub proof fn lemma_lines_rewritten(state: Fence, lines: Seq<Seq<char>>)
    ensures
        lines_rewritten(state, lines).len() == lines.len(),
        forall|at: int|
            0 <= at < lines.len() ==> #[trigger] lines_rewritten(state, lines)[at]
                == line_rewritten(state_at(state, lines, at), lines[at]).1,
    decreases lines.len(),
{
    if lines.len() > 0 {
        let step = line_rewritten(state, lines.first());
        let tail = lines.drop_first();
        lemma_lines_rewritten(step.0, tail);
        assert forall|at: int| 0 <= at < lines.len() implies #[trigger] lines_rewritten(
            state,
            lines,
        )[at] == line_rewritten(state_at(state, lines, at), lines[at]).1 by {
            if at > 0 {
                lemma_state_at_shift(state, lines, at - 1);
            }
        }
    }
}

/// Outside any block, lines that open no admonition are written as they
/// stand, and the scan stays outside.
pub proof fn lemma_run_outside(lines: Seq<Seq<char>>, from: int, to: int)
    requires
        0 <= from <= to <= lines.len(),
        state_at(Fence::Outside, lines, from) is Outside,
        forall|k: int| from <= k < to ==> !opens(#[trigger] lines[k]),
    ensures
        forall|k: int| from <= k <= to ==> #[trigger] state_at(Fence::Outside, lines, k) is Outside,
        forall|k: int| from <= k < to ==> #[trigger] written_at(lines, k) == lines[k],
    decreases to - from,
{
    if from < to {
        lemma_run_outside(lines, from, to - 1);
        assert(state_at(Fence::Outside, lines, to - 1) is Outside);
    }
}

/// Inside a block, lines that do not close it are written as they stand,
/// and the block stays open.
pub proof fn lemma_run_inside(lines: Seq<Seq<char>>, from: int, to: int, indent: Seq<char>)
    requires
        0 <= from <= to <= lines.len(),
        state_at(Fence::Outside, lines, from) == Fence::Inside(indent),
        forall|k: int| from <= k < to ==> !closes(#[trigger] lines[k], indent),
    ensures
        forall|k: int|
            from <= k <= to ==> #[trigger] state_at(Fence::Outside, lines, k) == Fence::Inside(
                indent,
            ),
        forall|k: int| from <= k < to ==> #[trigger] written_at(lines, k) == lines[k],
    decreases to - from,
{
    if from < to {
        lemma_run_inside(lines, from, to - 1, indent);
        assert(state_at(Fence::Outside, lines, to - 1) == Fence::Inside(indent));
    }
}

/// Fenced blocks that are no admonitions stay as they are. Where none of
/// the lines `from..to` is a fence whose info string is `admonish`, and
/// the scan reaches them outside any admonition, or inside one that none
/// of them closes, each of them is written as it stands, and the scan
/// leaves them in the state in which it reached them.
pub proof fn lemma_other_fences_untouched(lines: Seq<Seq<char>>, from: int, to: int)
    requires
        0 <= from <= to <= lines.len(),
        forall|k: int| from <= k < to ==> !names_admonish(body_of(#[trigger] lines[k])),
        state_at(Fence::Outside, lines, from) matches Fence::Inside(indent) ==> forall|k: int|
            from <= k < to ==> !closes(#[trigger] lines[k], indent),
    ensures
        forall|k: int|
            from <= k < to ==> #[trigger] lines_rewritten(Fence::Outside, lines)[k] == lines[k],
        state_at(Fence::Outside, lines, to) == state_at(Fence::Outside, lines, from),
{
    lemma_lines_rewritten(Fence::Outside, lines);
    match state_at(Fence::Outside, lines, from) {
        Fence::Outside => {
            // A line that opens an admonition names `admonish`.
            assert forall|k: int| from <= k < to implies !opens(#[trigger] lines[k]) by {}
            lemma_run_outside(lines, from, to);
        },
        Fence::Inside(indent) => {
            lemma_run_inside(lines, from, to, indent);
        },
    }
    assert forall|k: int| from <= k < to implies #[trigger] lines_rewritten(
        Fence::Outside,
        lines,
    )[k] == written_at(lines, k) by {}
}

/// A document without admonitions stays as it is. Where no line of
/// `content` is a fence whose info string is `admonish`, `content` is
/// written character for character.
pub proof fn lemma_without_admonitions_unchanged(content: Seq<char>)
    requires
        forall|k: int|
            0 <= k < lines_of(content).len() ==> !names_admonish(
                body_of(#[trigger] lines_of(content)[k]),
            ),
    ensures
        admonitions_rewritten(content) == content,
{
    let lines = lines_of(content);
    lemma_lines_rewritten(Fence::Outside, lines);
    lemma_other_fences_untouched(lines, 0, lines.len() as int);
    assert(lines_rewritten(Fence::Outside, lines) == lines);
    lemma_lines_joined(content);
}

/// The end of the first `count` blocks: the index behind the closing fence
/// of the last of them.
spec fn end_of(blocks: Seq<(int, int)>, count: int) -> int {
    if count <= 0 {
        0
    } else {
        blocks[count - 1].1 + 1
    }
}

/// A line between the first `count` blocks and the next one is no fence of
/// any block and lies in none.
proof fn lemma_between_blocks(lines: Seq<Seq<char>>, blocks: Seq<(int, int)>, count: int, at: int)
    requires
        are_blocks(lines, blocks),
        0 <= count <= blocks.len(),
        end_of(blocks, count) <= at,
        count < blocks.len() ==> at < blocks[count].0,
    ensures
        !is_opening_of(blocks, at),
        !is_closing_of(blocks, at),
        !is_within(blocks, at),
{
    // The blocks before `count` end before `at`, and the others begin
    // behind it.
    assert forall|b: int| 0 <= b < blocks.len() implies !((#[trigger] blocks[b]).0 <= at
        <= blocks[b].1) by {
        if b > count {
            assert(blocks[count].1 < blocks[b].0);
        }
    }
}

/// A line of a block is a fence of that block or of none.
proof fn lemma_inside_block(lines: Seq<Seq<char>>, blocks: Seq<(int, int)>, index: int, at: int)
    requires
        are_blocks(lines, blocks),
        0 <= index < blocks.len(),
        blocks[index].0 <= at <= blocks[index].1,
    ensures
        is_opening_of(blocks, at) <==> at == blocks[index].0,
        is_closing_of(blocks, at) <==> at == blocks[index].1,
{
    // Any other block ends before this one begins, or begins behind its
    // end.
    assert forall|b: int| 0 <= b < blocks.len() && b != index implies (#[trigger] blocks[b]).0
        != at && blocks[b].1 != at by {}
}

/// The scan of the first `count` blocks and of what stands before and
/// between them: it ends outside any block, and every line up to there is
/// written as expected.
proof fn lemma_blocks_scanned(lines: Seq<Seq<char>>, blocks: Seq<(int, int)>, count: int)
    requires
        are_blocks(lines, blocks),
        0 <= count <= blocks.len(),
    ensures
        0 <= end_of(blocks, count) <= lines.len(),
        state_at(Fence::Outside, lines, end_of(blocks, count)) is Outside,
        forall|k: int|
            0 <= k < end_of(blocks, count) ==> #[trigger] written_at(lines, k) == expected_at(
                lines,
                blocks,
                k,
            ),
    decreases count,
{
    if count > 0 {
        lemma_blocks_scanned(lines, blocks, count - 1);
        let start = end_of(blocks, count - 1);
        let open = blocks[count - 1].0;
        let close = blocks[count - 1].1;
        let indent = indent_of(lines[open]);
        // Up to the opening fence the scan stays outside.
        assert forall|k: int| start <= k < open implies !opens(#[trigger] lines[k]) by {
            lemma_between_blocks(lines, blocks, count - 1, k);
        }
        lemma_run_outside(lines, start, open);
        assert(state_at(Fence::Outside, lines, open) is Outside);
        // The fence opens the block, which stays open up to the closing
        // fence.
        lemma_run_inside(lines, open + 1, close, indent);
        assert(state_at(Fence::Outside, lines, close) == Fence::Inside(indent));
        assert forall|k: int| 0 <= k < end_of(blocks, count) implies #[trigger] written_at(
            lines,
            k,
        ) == expected_at(lines, blocks, k) by {
            if start <= k < open {
                lemma_between_blocks(lines, blocks, count - 1, k);
            } else if open <= k {
                lemma_inside_block(lines, blocks, count - 1, k);
            }
        }
    }
}

/// Fence balance. In a document whose admonition blocks are `blocks`, the
/// opening fence of each block is written as its opening container line,
/// the closing fence as its closing container line, and every other line
/// as it stands: as many opening and as many closing container lines are
/// written as there are blocks, and the scan ends outside any block.
pub proof fn lemma_fence_balance(lines: Seq<Seq<char>>, blocks: Seq<(int, int)>)
    requires
        are_blocks(lines, blocks),
    ensures
        lines_rewritten(Fence::Outside, lines).len() == lines.len(),
        forall|k: int|
            0 <= k < lines.len() ==> #[trigger] lines_rewritten(Fence::Outside, lines)[k]
                == expected_at(lines, blocks, k),
        state_at(Fence::Outside, lines, lines.len() as int) is Outside,
{
    let count = blocks.len() as int;
    let start = end_of(blocks, count);
    lemma_lines_rewritten(Fence::Outside, lines);
    lemma_blocks_scanned(lines, blocks, count);
    assert forall|k: int| start <= k < lines.len() implies !opens(#[trigger] lines[k]) by {
        lemma_between_blocks(lines, blocks, count, k);
    }
    lemma_run_outside(lines, start, lines.len() as int);
    assert forall|k: int| 0 <= k < lines.len() implies #[trigger] lines_rewritten(
        Fence::Outside,
        lines,
    )[k] == expected_at(lines, blocks, k) by {
        assert(lines_rewritten(Fence::Outside, lines)[k] == written_at(lines, k));
        if k >= start {
            lemma_between_blocks(lines, blocks, count, k);
        }
    }
}

/// Whether `kind` stands on one line: it holds neither a line feed nor a
/// carriage return.
pub open spec fn on_one_line(kind: Seq<char>) -> bool {
    forall|i: int| 0 <= i < kind.len() ==> #[trigger] kind[i] != '\n' && kind[i] != '\r'
}

/// Whether the kind of every admonition that a line of `lines` opens
/// stands on one line.
spec fn kinds_on_one_line(lines: Seq<Seq<char>>) -> bool {
    forall|k: int|
        0 <= k < lines.len() ==> (kind_of_opening(body_of(#[trigger] lines[k])) matches Some(kind)
            ==> on_one_line(kind))
}

/// Whether no fence of `lines` that names `admonish` holds a carriage
/// return.
pub open spec fn without_carriage_return(lines: Seq<Seq<char>>) -> bool {
    forall|k: int, i: int|
        0 <= k < lines.len() && names_admonish(body_of(lines[k])) && 0 <= i < lines[k].len()
            ==> #[trigger] lines[k][i] != '\r'
}

/// The kind of an admonition is the default kind or a part of the line
/// that opens it, so that it stands on one line where the line does.
proof fn lemma_kinds_on_one_line(lines: Seq<Seq<char>>, breaks: Seq<Seq<char>>)
    requires
        are_lines(lines, breaks),
        without_carriage_return(lines),
    ensures
        kinds_on_one_line(lines),
{
    reveal_strlit("note");
    assert forall|k: int| 0 <= k < lines.len() implies (kind_of_opening(
        body_of(#[trigger] lines[k]),
    ) matches Some(kind) ==> on_one_line(kind)) by {
        let line = lines[k];
        let body = body_of(line);
        if kind_of_opening(body) is Some {
            let kind = kind_of_opening(body).unwrap();
            assert(fits(line, breaks[k]));
            lemma_indent_len(line);
            match keyword_in(body) {
                Some(Some(word)) => {
                    assert(kind == word);
                    let at = choose|at: int| occurs_at(body, at, word);
                    assert forall|i: int| 0 <= i < kind.len() implies #[trigger] kind[i] != '\n'
                        && kind[i] != '\r' by {
                        assert(body.subrange(at, at + word.len())[i] == body[at + i]);
                        assert(body[at + i] == line[indent_len(line) + at + i]);
                    }
                },
                _ => {
                    assert(kind == DEFAULT_KIND@);
                },
            }
        }
    }
}

/// What is written for a line fits the line break of the line, and is not
/// empty where the line is not.
proof fn lemma_written_fits(state: Fence, line: Seq<char>, line_break: Seq<char>)
    requires
        fits(line, line_break),
        kind_of_opening(body_of(line)) matches Some(kind) ==> on_one_line(kind),
    ensures
        fits(line_rewritten(state, line).1, line_break),
        line.len() > 0 ==> line_rewritten(state, line).1.len() > 0,
{
    reveal_strlit(":::");
    lemma_indent_len(line);
    let written = line_rewritten(state, line).1;
    let indent = indent_of(line);
    let token = CONTAINER_TOKEN@;
    assert forall|i: int| 0 <= i < indent.len() implies #[trigger] indent[i] != '\n' by {
        assert(indent[i] == line[i]);
    }
    if written == container_closing(line) {
        assert(written.last() == token[2]);
        assert forall|i: int| 0 <= i < written.len() implies #[trigger] written[i] != '\n' by {
            if i >= indent.len() {
                assert(written[i] == token[i - indent.len()]);
            }
        }
    } else if written != line {
        let kind = kind_of_opening(body_of(line)).unwrap();
        assert(written == indent + token + kind);
        assert forall|i: int| 0 <= i < written.len() implies #[trigger] written[i] != '\n' by {
            if i >= indent.len() + token.len() {
                assert(written[i] == kind[i - indent.len() - token.len()]);
            } else if i >= indent.len() {
                assert(written[i] == token[i - indent.len()]);
            }
        }
        if kind.len() > 0 {
            assert(written.last() == kind.last());
        } else {
            assert(written.last() == token[2]);
        }
    }
}

/// The lines that are written fit the line breaks of the document, where
/// every kind stands on one line.
proof fn lemma_rewritten_are_lines(lines: Seq<Seq<char>>, breaks: Seq<Seq<char>>)
    requires
        are_lines(lines, breaks),
        kinds_on_one_line(lines),
    ensures
        are_lines(lines_rewritten(Fence::Outside, lines), breaks),
{
    let written = lines_rewritten(Fence::Outside, lines);
    lemma_lines_rewritten(Fence::Outside, lines);
    assert forall|i: int| 0 <= i < written.len() implies fits(#[trigger] written[i], breaks[i]) by {
        assert(fits(lines[i], breaks[i]));
        lemma_written_fits(state_at(Fence::Outside, lines, i), lines[i], breaks[i]);
    }
    if lines.len() > 0 {
        let last = lines.len() - 1;
        assert(fits(lines[last], breaks[last]));
        lemma_written_fits(state_at(Fence::Outside, lines, last), lines[last], breaks[last]);
        assert(written.last() == written[last]);
    }
}

/// The lines of the document that is written are the lines that are
/// written for the lines of `content`, and its line breaks are those of
/// `content`, where no fence of `content` that names `admonish` holds a
/// carriage return.
pub proof fn lemma_lines_of_rewritten(content: Seq<char>)
    requires
        without_carriage_return(lines_of(content)),
    ensures
        lines_of(admonitions_rewritten(content)) == lines_rewritten(
            Fence::Outside,
            lines_of(content),
        ),
        breaks_of(admonitions_rewritten(content)) == breaks_of(content),
{
    lemma_lines_are_lines(content);
    lemma_kinds_on_one_line(lines_of(content), breaks_of(content));
    lemma_rewritten_are_lines(lines_of(content), breaks_of(content));
    lemma_lines_of_joined(lines_rewritten(Fence::Outside, lines_of(content)), breaks_of(content));
}

/// Fence balance, of the document that is written. Where `blocks` are the
/// admonition blocks of `content` and no fence that names `admonish` holds
/// a carriage return, the document that is written has as many lines as
/// `content`, with the same line breaks; its line is the opening container
/// line at each opening fence, the closing container line at each closing
/// fence, and the line of `content` at any other index.
pub proof fn lemma_fence_balance_of_document(content: Seq<char>, blocks: Seq<(int, int)>)
    requires
        are_blocks(lines_of(content), blocks),
        without_carriage_return(lines_of(content)),
    ensures
        lines_of(admonitions_rewritten(content)).len() == lines_of(content).len(),
        breaks_of(admonitions_rewritten(content)) == breaks_of(content),
        forall|k: int|
            0 <= k < lines_of(content).len() ==> #[trigger] lines_of(
                admonitions_rewritten(content),
            )[k] == expected_at(lines_of(content), blocks, k),
{
    lemma_lines_of_rewritten(content);
    lemma_fence_balance(lines_of(content), blocks);
}

} // verus!
