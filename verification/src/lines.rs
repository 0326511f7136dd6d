//! The lines of a document, their line breaks, and the document that
//! lines and line breaks make.

use crate::chars::copy_range;
use vstd::prelude::*;

verus! {

/// The index of the first line feed in `s`, or the length of `s` where it
/// holds none.
pub open spec fn first_newline(s: Seq<char>) -> int
    decreases s.len(),
{
    if s.len() == 0 || s.first() == '\n' {
        0
    } else {
        1 + first_newline(s.drop_first())
    }
}

/// No line feed stands before the first one.
pub proof fn lemma_first_newline(s: Seq<char>)
    ensures
        0 <= first_newline(s) <= s.len(),
        forall|i: int| 0 <= i < first_newline(s) ==> #[trigger] s[i] != '\n',
        first_newline(s) < s.len() ==> s[first_newline(s)] == '\n',
    decreases s.len(),
{
    if !(s.len() == 0 || s.first() == '\n') {
        let rest = s.drop_first();
        lemma_first_newline(rest);
        assert forall|i: int| 0 <= i < first_newline(s) implies #[trigger] s[i] != '\n' by {
            if i > 0 {
                assert(s[i] == rest[i - 1]);
            }
        }
        if first_newline(s) < s.len() {
            assert(s[first_newline(s)] == rest[first_newline(rest)]);
        }
    }
}

/// The index of the first line feed at or after `from`, or the length of `s`.
pub fn find_newline(s: &Vec<char>, from: usize) -> (at: usize)
    requires
        from <= s.len(),
    ensures
        from <= at <= s.len(),
        at == from + first_newline(s@.skip(from as int)),
{
    let mut at: usize = from;
    while at < s.len() && s[at] != '\n'
        invariant
            from <= at <= s.len(),
            first_newline(s@.skip(from as int)) == (at - from) + first_newline(
                s@.skip(at as int),
            ),
        decreases s.len() - at,
    {
        assert(s@.skip(at as int).drop_first() == s@.skip(at + 1));
        at += 1;
    }
    at
}

/// `line` without the carriage return at its end, if it has one.
pub open spec fn without_cr(line: Seq<char>) -> Seq<char> {
    if line.len() > 0 && line.last() == '\r' {
        line.drop_last()
    } else {
        line
    }
}

/// The lines of `s`, without their line breaks. A line ends at a line
/// feed, or at a carriage return and a line feed; neither belongs to the
/// line. What follows the last line feed is a line too, unless it is
/// empty.
pub open spec fn lines_of(s: Seq<char>) -> Seq<Seq<char>>
    decreases s.len(),
{
    let n = first_newline(s);
    if s.len() == 0 {
        Seq::empty()
    } else if 0 <= n < s.len() {
        seq![without_cr(s.take(n))] + lines_of(s.skip(n + 1))
    } else {
        seq![s]
    }
}

/// The line break behind a line, where `raw` is what stands before the
/// line feed: a carriage return and a line feed where `raw` ends in a
/// carriage return, a line feed alone where it does not.
pub open spec fn break_after(raw: Seq<char>) -> Seq<char> {
    if raw.len() > 0 && raw.last() == '\r' {
        seq!['\r', '\n']
    } else {
        seq!['\n']
    }
}

/// The line breaks of `s`, one for each of its lines: what ends the line,
/// which is a line feed, or a carriage return and a line feed, or nothing
/// behind a last line that no line feed ends.
pub open spec fn breaks_of(s: Seq<char>) -> Seq<Seq<char>>
    decreases s.len(),
{
    let n = first_newline(s);
    if s.len() == 0 {
        Seq::empty()
    } else if 0 <= n < s.len() {
        seq![break_after(s.take(n))] + breaks_of(s.skip(n + 1))
    } else {
        seq![Seq::empty()]
    }
}

/// The lines one after the other, each followed by its line break.
pub open spec fn joined(lines: Seq<Seq<char>>, breaks: Seq<Seq<char>>) -> Seq<char>
    decreases lines.len(),
{
    if lines.len() == 0 || breaks.len() == 0 {
        Seq::empty()
    } else {
        lines.first() + breaks.first() + joined(lines.drop_first(), breaks.drop_first())
    }
}

/// The line of `s` that begins at `from`, the line break that ends it, and
/// the index at which the line behind it begins, or the length of `s`
/// where it is the last.
pub fn next_line(s: &Vec<char>, from: usize) -> (found: (Vec<char>, Vec<char>, usize))
    requires
        from < s.len(),
    ensures
        from < found.2 <= s.len(),
        lines_of(s@.skip(from as int)) == seq![found.0@] + lines_of(s@.skip(found.2 as int)),
        breaks_of(s@.skip(from as int)) == seq![found.1@] + breaks_of(s@.skip(found.2 as int)),
        found.0@ + found.1@ == s@.subrange(from as int, found.2 as int),
{
    let ghost rest = s@.skip(from as int);
    let end = find_newline(s, from);
    proof {
        lemma_first_newline(rest);
        assert(rest.take(end - from) == s@.subrange(from as int, end as int));
    }
    if end < s.len() {
        let stop = if end > from && s[end - 1] == '\r' {
            end - 1
        } else {
            end
        };
        let line = copy_range(s, from, stop);
        let line_break = copy_range(s, stop, end + 1);
        proof {
            assert(line@ == without_cr(rest.take(end - from)));
            assert(line_break@ == break_after(rest.take(end - from)));
            assert(rest.skip(end - from + 1) == s@.skip(end + 1));
            assert(line@ + line_break@ == s@.subrange(from as int, end + 1));
        }
        (line, line_break, end + 1)
    } else {
        let line = copy_range(s, from, end);
        proof {
            assert(line@ == rest);
            assert(lines_of(s@.skip(end as int)) == Seq::<Seq<char>>::empty());
            assert(breaks_of(s@.skip(end as int)) == Seq::<Seq<char>>::empty());
            assert(line@ + Seq::<char>::empty() == s@.subrange(from as int, end as int));
        }
        (line, Vec::new(), end)
    }
}

/// There are as many line breaks as lines.
pub proof fn lemma_breaks_len(s: Seq<char>)
    ensures
        breaks_of(s).len() == lines_of(s).len(),
    decreases s.len(),
{
    let n = first_newline(s);
    if s.len() > 0 && 0 <= n < s.len() {
        lemma_breaks_len(s.skip(n + 1));
    }
}

/// The lines of `s`, each with its line break, are `s` again.
pub proof fn lemma_lines_joined(s: Seq<char>)
    ensures
        joined(lines_of(s), breaks_of(s)) == s,
    decreases s.len(),
{
    let n = first_newline(s);
    lemma_first_newline(s);
    if s.len() == 0 {
    } else if n < s.len() {
        let raw = s.take(n);
        let tail = s.skip(n + 1);
        lemma_lines_joined(tail);
        let lines = seq![without_cr(raw)] + lines_of(tail);
        let breaks = seq![break_after(raw)] + breaks_of(tail);
        assert(lines.first() == without_cr(raw));
        assert(lines.drop_first() == lines_of(tail));
        assert(breaks.first() == break_after(raw));
        assert(breaks.drop_first() == breaks_of(tail));
        assert(without_cr(raw) + break_after(raw) == raw + seq!['\n']);
        assert(s == raw + seq!['\n'] + tail);
    } else {
        let lines = seq![s];
        let breaks = seq![Seq::<char>::empty()];
        assert(lines.first() == s);
        assert(lines.drop_first() == Seq::<Seq<char>>::empty());
        assert(breaks.first() == Seq::<char>::empty());
        assert(joined(lines.drop_first(), breaks.drop_first()) == Seq::<char>::empty());
        assert(joined(lines, breaks) == s + Seq::<char>::empty() + Seq::<char>::empty());
    }
}

/// Whether `line` holds no line feed.
pub open spec fn without_newline(line: Seq<char>) -> bool {
    forall|i: int| 0 <= i < line.len() ==> #[trigger] line[i] != '\n'
}

/// Whether `line_break` is a line feed, or a carriage return and a line
/// feed.
pub open spec fn is_line_break(line_break: Seq<char>) -> bool {
    line_break == seq!['\n'] || line_break == seq!['\r', '\n']
}

/// Whether `line` can stand before `line_break`: it holds no line feed,
/// and it does not end in a carriage return before a line feed alone,
/// which would make the two one line break.
pub open spec fn fits(line: Seq<char>, line_break: Seq<char>) -> bool {
    &&& without_newline(line)
    &&& line_break == seq!['\n'] ==> !(line.len() > 0 && line.last() == '\r')
}

/// Whether `lines` and `breaks` are the lines and the line breaks of a
/// document: each line fits its line break, and only the last line, if it
/// is not empty, may go without one.
pub open spec fn are_lines(lines: Seq<Seq<char>>, breaks: Seq<Seq<char>>) -> bool {
    &&& lines.len() == breaks.len()
    &&& forall|i: int| 0 <= i < lines.len() ==> fits(#[trigger] lines[i], breaks[i])
    &&& forall|i: int| 0 <= i < breaks.len() - 1 ==> is_line_break(#[trigger] breaks[i])
    &&& lines.len() > 0 ==> is_line_break(breaks.last()) || (breaks.last().len() == 0
        && lines.last().len() > 0)
}

/// Behind a line stands its line feed.
pub proof fn lemma_line_ends(line: Seq<char>, rest: Seq<char>)
    requires
        without_newline(line),
    ensures
        first_newline(line + seq!['\n'] + rest) == line.len(),
        (line + seq!['\n'] + rest).take(line.len() as int) == line,
        (line + seq!['\n'] + rest).take(line.len() as int + 1) == line + seq!['\n'],
        (line + seq!['\n'] + rest).skip(line.len() as int + 1) == rest,
{
    let s = line + seq!['\n'] + rest;
    lemma_first_newline(s);
    let n = first_newline(s);
    if n < line.len() {
        assert(s[n] == line[n]);
    } else if n > line.len() {
        assert(s[line.len() as int] == '\n');
    }
}

/// The lines and the line breaks of a document are lines and line breaks.
pub proof fn lemma_lines_are_lines(s: Seq<char>)
    ensures
        are_lines(lines_of(s), breaks_of(s)),
    decreases s.len(),
{
    let n = first_newline(s);
    lemma_first_newline(s);
    let lines = lines_of(s);
    let breaks = breaks_of(s);
    if s.len() == 0 {
    } else if n < s.len() {
        let raw = s.take(n);
        let tail = s.skip(n + 1);
        lemma_lines_are_lines(tail);
        let lines_tail = lines_of(tail);
        let breaks_tail = breaks_of(tail);
        assert(lines == seq![without_cr(raw)] + lines_tail);
        assert(breaks == seq![break_after(raw)] + breaks_tail);
        assert(is_line_break(break_after(raw)));
        assert(fits(without_cr(raw), break_after(raw))) by {
            if raw.len() > 0 && raw.last() == '\r' {
                assert(break_after(raw).len() == 2);
            }
        }
        assert forall|i: int| 0 <= i < lines.len() implies fits(#[trigger] lines[i], breaks[i]) by {
            if i > 0 {
                assert(lines[i] == lines_tail[i - 1]);
                assert(breaks[i] == breaks_tail[i - 1]);
            }
        }
        assert forall|i: int| 0 <= i < breaks.len() - 1 implies is_line_break(
            #[trigger] breaks[i],
        ) by {
            if i > 0 {
                assert(breaks[i] == breaks_tail[i - 1]);
            }
        }
        if lines_tail.len() > 0 {
            assert(breaks.last() == breaks_tail.last());
            assert(lines.last() == lines_tail.last());
        }
    } else {
        assert(lines == seq![s]);
        assert(breaks == seq![Seq::<char>::empty()]);
        assert(seq!['\n'].len() == 1);
    }
}

/// Lines and line breaks, joined, make a document whose lines and line
/// breaks they are.
pub proof fn lemma_lines_of_joined(lines: Seq<Seq<char>>, breaks: Seq<Seq<char>>)
    requires
        are_lines(lines, breaks),
    ensures
        lines_of(joined(lines, breaks)) == lines,
        breaks_of(joined(lines, breaks)) == breaks,
    decreases lines.len(),
{
    if lines.len() > 0 {
        let line = lines.first();
        let line_break = breaks.first();
        let lines_tail = lines.drop_first();
        let breaks_tail = breaks.drop_first();
        let tail = joined(lines_tail, breaks_tail);
        let s = joined(lines, breaks);
        assert(s == line + line_break + tail);
        assert(fits(line, line_break));
        if line_break.len() == 0 {
            // Only the last line goes without a line break.
            assert(lines.len() == 1) by {
                if lines.len() > 1 {
                    assert(is_line_break(breaks[0]));
                }
            }
            assert(tail == Seq::<char>::empty());
            assert(s == line);
            lemma_first_newline(s);
            assert(lines_of(s) == seq![s]);
            assert(breaks_of(s) == seq![Seq::<char>::empty()]);
            assert(line_break == Seq::<char>::empty());
            assert(breaks == seq![line_break]);
            assert(lines == seq![line]);
        } else {
            assert(is_line_break(line_break)) by {
                if lines.len() > 1 {
                    assert(is_line_break(breaks[0]));
                }
            }
            assert(are_lines(lines_tail, breaks_tail)) by {
                assert forall|i: int| 0 <= i < lines_tail.len() implies fits(
                    #[trigger] lines_tail[i],
                    breaks_tail[i],
                ) by {
                    assert(lines_tail[i] == lines[i + 1]);
                    assert(breaks_tail[i] == breaks[i + 1]);
                }
                assert forall|i: int| 0 <= i < breaks_tail.len() - 1 implies is_line_break(
                    #[trigger] breaks_tail[i],
                ) by {
                    assert(breaks_tail[i] == breaks[i + 1]);
                }
                if lines_tail.len() > 0 {
                    assert(breaks_tail.last() == breaks.last());
                    assert(lines_tail.last() == lines.last());
                }
            }
            lemma_lines_of_joined(lines_tail, breaks_tail);
            let raw = if line_break == seq!['\n'] {
                line
            } else {
                line.push('\r')
            };
            assert(without_newline(raw));
            assert(s == raw + seq!['\n'] + tail);
            lemma_line_ends(raw, tail);
            assert(without_cr(raw) == line) by {
                if line_break != seq!['\n'] {
                    assert(raw.drop_last() == line);
                }
            }
            assert(break_after(raw) == line_break);
            assert(lines_of(s) == seq![without_cr(raw)] + lines_of(tail));
            assert(breaks_of(s) == seq![break_after(raw)] + breaks_of(tail));
            assert(lines == seq![line] + lines_tail);
            assert(breaks == seq![line_break] + breaks_tail);
        }
    } else {
        assert(lines == Seq::<Seq<char>>::empty());
        assert(breaks == Seq::<Seq<char>>::empty());
    }
}

} // verus!
