//! Replacing a literal by another, and when two replacements can be made
//! in either order.

use crate::chars::{append_chars, matches_at, occurs_at};
use vstd::prelude::*;

verus! {

/// `s` with every occurrence of `from` replaced by `to`. The occurrences
/// are taken from left to right, and none overlaps the one before it. An
/// empty `from` occurs nowhere.
pub open spec fn replaced(s: Seq<char>, from: Seq<char>, to: Seq<char>) -> Seq<char>
    decreases s.len(),
{
    if s.len() == 0 {
        s
    } else if from.len() > 0 && occurs_at(s, 0, from) {
        to + replaced(s.skip(from.len() as int), from, to)
    } else {
        seq![s.first()] + replaced(s.drop_first(), from, to)
    }
}

/// `s` with every occurrence of `from` replaced by `to`.
pub fn replace_all(s: &Vec<char>, from: &Vec<char>, to: &Vec<char>) -> (out: Vec<char>)
    ensures
        out@ == replaced(s@, from@, to@),
{
    let mut out: Vec<char> = Vec::new();
    let mut pos: usize = 0;
    assert(s@.skip(0) == s@);
    while pos < s.len()
        invariant
            pos <= s.len(),
            replaced(s@, from@, to@) == out@ + replaced(s@.skip(pos as int), from@, to@),
        decreases s.len() - pos,
    {
        let ghost rest = s@.skip(pos as int);
        let found = from.len() > 0 && matches_at(s, pos, from);
        proof {
            assert(occurs_at(s@, pos as int, from@) == occurs_at(rest, 0, from@)) by {
                if pos + from@.len() <= s@.len() {
                    assert(rest.subrange(0, from@.len() as int) == s@.subrange(
                        pos as int,
                        pos + from@.len(),
                    ));
                }
            }
        }
        if found {
            append_chars(&mut out, to);
            assert(rest.skip(from@.len() as int) == s@.skip(pos + from@.len()));
            pos = pos + from.len();
        } else {
            out.push(s[pos]);
            assert(rest.drop_first() == s@.skip(pos + 1));
            pos = pos + 1;
        }
    }
    out
}

/// Whether `word` begins with `lead`, holds it nowhere else, and is longer
/// than it.
pub open spec fn led_by(word: Seq<char>, lead: char) -> bool {
    &&& word.len() >= 2
    &&& word[0] == lead
    &&& forall|j: int| 1 <= j < word.len() ==> #[trigger] word[j] != lead
}

/// `s` with every occurrence of `a` replaced by `a_to` and every occurrence
/// of `b` replaced by `b_to`, in one pass from left to right.
spec fn both_replaced(
    s: Seq<char>,
    a: Seq<char>,
    a_to: Seq<char>,
    b: Seq<char>,
    b_to: Seq<char>,
) -> Seq<char>
    decreases s.len(),
{
    if s.len() == 0 {
        s
    } else if a.len() > 0 && occurs_at(s, 0, a) {
        a_to + both_replaced(s.skip(a.len() as int), a, a_to, b, b_to)
    } else if b.len() > 0 && occurs_at(s, 0, b) {
        b_to + both_replaced(s.skip(b.len() as int), a, a_to, b, b_to)
    } else {
        seq![s.first()] + both_replaced(s.drop_first(), a, a_to, b, b_to)
    }
}

/// An occurrence in what follows the first character is an occurrence one
/// index further on.
proof fn lemma_occurs_shifted(s: Seq<char>, at: int, pat: Seq<char>)
    requires
        s.len() > 0,
        0 <= at,
    ensures
        occurs_at(s.drop_first(), at, pat) == occurs_at(s, at + 1, pat),
{
    if at + pat.len() <= s.len() - 1 {
        assert(s.drop_first().subrange(at, at + pat.len()) == s.subrange(
            at + 1,
            at + 1 + pat.len(),
        ));
    }
}

/// A prefix in which `from` occurs nowhere is written as it stands.
proof fn lemma_replaced_through(u: Seq<char>, t: Seq<char>, from: Seq<char>, to: Seq<char>)
    requires
        forall|j: int| 0 <= j < u.len() ==> !occurs_at(u + t, j, from),
    ensures
        replaced(u + t, from, to) == u + replaced(t, from, to),
    decreases u.len(),
{
    let s = u + t;
    if u.len() == 0 {
        assert(s == t);
    } else {
        assert(!occurs_at(s, 0, from));
        assert(s.drop_first() == u.drop_first() + t);
        assert forall|j: int| 0 <= j < u.drop_first().len() implies !occurs_at(
            u.drop_first() + t,
            j,
            from,
        ) by {
            lemma_occurs_shifted(s, j, from);
            assert(!occurs_at(s, j + 1, from));
        }
        lemma_replaced_through(u.drop_first(), t, from, to);
        assert(s.first() == u.first());
        assert(u == seq![u.first()] + u.drop_first());
    }
}

/// Inside a word that `lead` leads, no other such word begins, unless the
/// two agree in their second character.
proof fn lemma_none_inside(word: Seq<char>, t: Seq<char>, pat: Seq<char>, lead: char)
    requires
        led_by(word, lead),
        led_by(pat, lead),
        word[1] != pat[1],
    ensures
        forall|j: int| 0 <= j < word.len() ==> !occurs_at(word + t, j, pat),
{
    let s = word + t;
    assert forall|j: int| 0 <= j < word.len() implies !occurs_at(s, j, pat) by {
        if occurs_at(s, j, pat) {
            let part = s.subrange(j, j + pat.len());
            assert(part[0] == s[j]);
            assert(part[1] == s[j + 1]);
            if j == 0 {
                assert(s[1] == word[1]);
            } else {
                assert(s[j] == word[j]);
            }
        }
    }
}

/// Where what is written begins with characters other than `lead`, the
/// text began with the same characters.
proof fn lemma_plain_start(x: Seq<char>, count: int, from: Seq<char>, to: Seq<char>, lead: char)
    requires
        led_by(to, lead),
        0 <= count <= replaced(x, from, to).len(),
        forall|j: int| 0 <= j < count ==> #[trigger] replaced(x, from, to)[j] != lead,
    ensures
        count <= x.len(),
        forall|j: int| 0 <= j < count ==> #[trigger] x[j] == replaced(x, from, to)[j],
    decreases count,
{
    if count > 0 {
        let y = replaced(x, from, to);
        assert(y[0] != lead);
        assert(x.len() > 0);
        if from.len() > 0 && occurs_at(x, 0, from) {
            assert(y[0] == to[0]);
        } else {
            let rest = replaced(x.drop_first(), from, to);
            assert(y == seq![x.first()] + rest);
            assert forall|j: int| 0 <= j < count - 1 implies #[trigger] rest[j] != lead by {
                assert(rest[j] == y[j + 1]);
            }
            lemma_plain_start(x.drop_first(), count - 1, from, to, lead);
            assert forall|j: int| 0 <= j < count implies #[trigger] x[j] == y[j] by {
                if j > 0 {
                    assert(x[j] == x.drop_first()[j - 1]);
                    assert(y[j] == rest[j - 1]);
                }
            }
        }
    }
}

/// Replacing `a`, then `b`, is replacing both in one pass.
proof fn lemma_one_then_other(
    s: Seq<char>,
    a: Seq<char>,
    a_to: Seq<char>,
    b: Seq<char>,
    b_to: Seq<char>,
    lead: char,
)
    requires
        led_by(a, lead),
        led_by(a_to, lead),
        led_by(b, lead),
        led_by(b_to, lead),
        a[1] != b[1],
        a_to[1] != b[1],
    ensures
        replaced(replaced(s, a, a_to), b, b_to) == both_replaced(s, a, a_to, b, b_to),
    decreases s.len(),
{
    if s.len() == 0 {
    } else if occurs_at(s, 0, a) {
        let rest = s.skip(a.len() as int);
        let t = replaced(rest, a, a_to);
        lemma_none_inside(a_to, t, b, lead);
        lemma_replaced_through(a_to, t, b, b_to);
        lemma_one_then_other(rest, a, a_to, b, b_to, lead);
    } else if occurs_at(s, 0, b) {
        let rest = s.skip(b.len() as int);
        let t = replaced(rest, a, a_to);
        assert(s == b + rest) by {
            assert(s.subrange(0, b.len() as int) == b);
        }
        lemma_none_inside(b, rest, a, lead);
        lemma_replaced_through(b, rest, a, a_to);
        assert(replaced(s, a, a_to) == b + t);
        assert((b + t).subrange(0, b.len() as int) == b);
        assert((b + t).skip(b.len() as int) == t);
        lemma_one_then_other(rest, a, a_to, b, b_to, lead);
    } else {
        let rest = s.drop_first();
        let y = replaced(rest, a, a_to);
        let written = seq![s.first()] + y;
        assert(replaced(s, a, a_to) == written);
        if occurs_at(written, 0, b) {
            let part = written.subrange(0, b.len() as int);
            assert(part == b);
            assert forall|j: int| 0 <= j < b.len() - 1 implies #[trigger] y[j] != lead by {
                assert(y[j] == part[j + 1]);
            }
            lemma_plain_start(rest, b.len() - 1, a, a_to, lead);
            assert(s.subrange(0, b.len() as int) == b) by {
                assert forall|j: int| 0 <= j < b.len() implies s.subrange(0, b.len() as int)[j]
                    == b[j] by {
                    if j == 0 {
                        assert(part[0] == s.first());
                    } else {
                        assert(s[j] == rest[j - 1]);
                        assert(y[j - 1] == part[j]);
                    }
                }
            }
            assert(false);
        }
        assert(written.first() == s.first());
        assert(written.drop_first() == y);
        lemma_one_then_other(rest, a, a_to, b, b_to, lead);
    }
}

/// The one pass does not depend on which of the two it tries first.
proof fn lemma_both_either_way(
    s: Seq<char>,
    a: Seq<char>,
    a_to: Seq<char>,
    b: Seq<char>,
    b_to: Seq<char>,
)
    requires
        a.len() >= 2,
        b.len() >= 2,
        a[1] != b[1],
    ensures
        both_replaced(s, a, a_to, b, b_to) == both_replaced(s, b, b_to, a, a_to),
    decreases s.len(),
{
    if s.len() == 0 {
    } else if occurs_at(s, 0, a) {
        if occurs_at(s, 0, b) {
            assert(s.subrange(0, a.len() as int)[1] == s[1]);
            assert(s.subrange(0, b.len() as int)[1] == s[1]);
        }
        lemma_both_either_way(s.skip(a.len() as int), a, a_to, b, b_to);
    } else if occurs_at(s, 0, b) {
        lemma_both_either_way(s.skip(b.len() as int), a, a_to, b, b_to);
    } else {
        lemma_both_either_way(s.drop_first(), a, a_to, b, b_to);
    }
}

/// Two replacements can be made in either order where the four words
/// begin with one character that none of them holds again, and what the
/// one replaces differs in its second character from what the other
/// replaces and from what the other writes.
pub proof fn lemma_replacements_commute(
    s: Seq<char>,
    a: Seq<char>,
    a_to: Seq<char>,
    b: Seq<char>,
    b_to: Seq<char>,
    lead: char,
)
    requires
        led_by(a, lead),
        led_by(a_to, lead),
        led_by(b, lead),
        led_by(b_to, lead),
        a[1] != b[1],
        a_to[1] != b[1],
        b_to[1] != a[1],
    ensures
        replaced(replaced(s, a, a_to), b, b_to) == replaced(replaced(s, b, b_to), a, a_to),
{
    lemma_one_then_other(s, a, a_to, b, b_to, lead);
    lemma_one_then_other(s, b, b_to, a, a_to, lead);
    lemma_both_either_way(s, a, a_to, b, b_to);
}

} // verus!
