//! What holds of the math passes: the two renamings of `align` can be
//! made in either order, and underscores are rewritten inside math spans
//! and nowhere else.

use crate::replacement::{lemma_replacements_commute, replaced};
use crate::transformers::math::{
    align_renamed, math_unescaped, scope_after, token_of, unescaped_from, MathScope, MathToken,
    ALIGNED_BEGIN, ALIGNED_END, ALIGN_BEGIN, ALIGN_END, BARE_UNDERSCORE, ESCAPED_UNDERSCORE,
};
use vstd::prelude::*;

verus! {

/// Whether `s` holds no dollar sign.
pub open spec fn without_dollar(s: Seq<char>) -> bool {
    forall|i: int| 0 <= i < s.len() ==> #[trigger] s[i] != '$'
}

/// Whether `s` holds no escaped underscore.
pub open spec fn without_escape(s: Seq<char>) -> bool {
    forall|i: int| 0 <= i < s.len() - 1 ==> !(#[trigger] s[i] == '\\' && s[i + 1] == '_')
}

/// The two renamings can be made in either order.
pub proof fn lemma_align_either_order(content: Seq<char>)
    ensures
        align_renamed(content) == replaced(
            replaced(content, ALIGN_END@, ALIGNED_END@),
            ALIGN_BEGIN@,
            ALIGNED_BEGIN@,
        ),
{
    reveal_strlit("\\begin{align}");
    reveal_strlit("\\begin{aligned}");
    reveal_strlit("\\end{align}");
    reveal_strlit("\\end{aligned}");
    lemma_replacements_commute(
        content,
        ALIGN_BEGIN@,
        ALIGNED_BEGIN@,
        ALIGN_END@,
        ALIGNED_END@,
        '\\',
    );
}

/// Scanned outside math, text without a dollar sign is written as it
/// stands, and the scan goes on outside math behind it.
pub proof fn lemma_prose_scanned(prose: Seq<char>, after: Seq<char>)
    requires
        without_dollar(prose),
    ensures
        unescaped_from(MathScope::prose(), prose + after) == prose + unescaped_from(
            MathScope::prose(),
            after,
        ),
    decreases prose.len(),
{
    if prose.len() > 0 {
        assert((prose + after).skip(1) == prose.skip(1) + after);
        lemma_prose_scanned(prose.skip(1), after);
    }
}

/// The scan of `before` and of what follows it, where `before` ends
/// outside math and is followed by text without a dollar sign.
proof fn lemma_scanned_to_prose(
    scope: MathScope,
    before: Seq<char>,
    prose: Seq<char>,
    after: Seq<char>,
)
    requires
        !scope_after(scope, before).in_math(),
        prose.len() > 0,
        without_dollar(prose),
    ensures
        unescaped_from(scope, before + prose + after) == unescaped_from(scope, before) + prose
            + unescaped_from(MathScope::prose(), after),
    decreases before.len(),
{
    let s = before + prose + after;
    if before.len() == 0 {
        lemma_prose_scanned(prose, after);
    } else {
        // The first token of `before` is the first token of the whole: a
        // dollar sign at the end of `before` is followed by none, and a
        // backslash there stands outside math.
        let token = token_of(scope, before);
        if before.len() == 1 {
            let next = scope.after(token);
            assert(scope_after(next, before.skip(1)) == next);
        }
        assert(s.skip(token.len()) == before.skip(token.len()) + prose + after);
        lemma_scanned_to_prose(scope.after(token), before.skip(token.len()), prose, after);
    }
}

/// Text outside math is left as it stands: where the scan of `before`
/// ends with no span open and `prose` holds no dollar sign, the document
/// `before + prose + after` is written as `before`, then `prose`
/// unchanged, then `after`, each scanned for itself.
pub proof fn lemma_prose_untouched(before: Seq<char>, prose: Seq<char>, after: Seq<char>)
    requires
        !scope_after(MathScope::prose(), before).in_math(),
        prose.len() > 0,
        without_dollar(prose),
    ensures
        math_unescaped(before + prose + after) == math_unescaped(before) + prose + math_unescaped(
            after,
        ),
{
    lemma_scanned_to_prose(MathScope::prose(), before, prose, after);
}

/// A document without a dollar sign is left as it stands.
pub proof fn lemma_unescaped_without_dollar(content: Seq<char>)
    requires
        without_dollar(content),
    ensures
        math_unescaped(content) == content,
{
    lemma_prose_scanned(content, Seq::empty());
}

/// Nothing but escaped underscores is ever rewritten: text without one is
/// written as it stands, whatever spans are open.
pub proof fn lemma_unescaped_without_escape(scope: MathScope, s: Seq<char>)
    requires
        without_escape(s),
    ensures
        unescaped_from(scope, s) == s,
    decreases s.len(),
{
    if s.len() > 0 {
        let token = token_of(scope, s);
        let rest = s.skip(token.len());
        assert forall|i: int| 0 <= i < rest.len() - 1 implies !(#[trigger] rest[i] == '\\'
            && rest[i + 1] == '_') by {}
        lemma_unescaped_without_escape(scope.after(token), rest);
    }
}

/// Inside math every escaped underscore is written bare: text without a
/// dollar sign, scanned where a span is open, is written with each `\_`
/// replaced by `_`, and the scan goes on behind it with the same spans
/// open. What follows the text must not begin with an underscore, which a
/// backslash at the end of the text would escape.
pub proof fn lemma_span_unescaped(scope: MathScope, span: Seq<char>, after: Seq<char>)
    requires
        scope.in_math(),
        without_dollar(span),
        after.len() == 0 || after[0] != '_',
    ensures
        unescaped_from(scope, span + after) == replaced(
            span,
            ESCAPED_UNDERSCORE@,
            BARE_UNDERSCORE@,
        ) + unescaped_from(scope, after),
    decreases span.len(),
{
    reveal_strlit("\\_");
    reveal_strlit("_");
    let escaped = ESCAPED_UNDERSCORE@;
    assert(escaped == seq!['\\', '_']);
    let s = span + after;
    if span.len() > 1 && span[0] == '\\' && span[1] == '_' {
        assert(span.subrange(0, 2) == escaped);
        assert(s.skip(2) == span.skip(2) + after);
        lemma_span_unescaped(scope, span.skip(2), after);
    } else if span.len() > 0 {
        assert(s.skip(1) == span.drop_first() + after);
        lemma_span_unescaped(scope, span.drop_first(), after);
    }
}

/// For each character of `s`, whether the scan leaves it out: the
/// backslash of an escaped underscore inside math, and nothing else.
pub open spec fn dropped(scope: MathScope, s: Seq<char>) -> Seq<bool>
    decreases s.len(),
{
    if s.len() == 0 {
        Seq::empty()
    } else {
        let token = token_of(scope, s);
        (match token {
            MathToken::EscapedUnderscore => seq![true, false],
            MathToken::Display => seq![false, false],
            _ => seq![false],
        }) + dropped(scope.after(token), s.skip(token.len()))
    }
}

/// `s` without the characters that `mask` marks.
pub open spec fn without_marked(s: Seq<char>, mask: Seq<bool>) -> Seq<char>
    decreases s.len(),
{
    if s.len() == 0 || mask.len() == 0 {
        s
    } else if mask.first() {
        without_marked(s.drop_first(), mask.drop_first())
    } else {
        seq![s.first()] + without_marked(s.drop_first(), mask.drop_first())
    }
}

/// Whether a dollar sign stands in `s` before the index `at`.
pub open spec fn dollar_before(s: Seq<char>, at: int) -> bool {
    exists|i: int| 0 <= i < at && i < s.len() && #[trigger] s[i] == '$'
}

/// Whether a dollar sign stands in `s` behind the index `at`.
pub open spec fn dollar_behind(s: Seq<char>, at: int) -> bool {
    exists|i: int| at < i < s.len() && #[trigger] s[i] == '$'
}

/// What is written is the text without the characters that the scan leaves
/// out: every other character is written as it stands, in its place.
pub proof fn lemma_unescaped_is_text_without_dropped(scope: MathScope, s: Seq<char>)
    ensures
        dropped(scope, s).len() == s.len(),
        unescaped_from(scope, s) == without_marked(s, dropped(scope, s)),
    decreases s.len(),
{
    if s.len() > 0 {
        let token = token_of(scope, s);
        let rest = s.skip(token.len());
        let mask = dropped(scope, s);
        lemma_unescaped_is_text_without_dropped(scope.after(token), rest);
        let tail = dropped(scope.after(token), rest);
        if token.len() == 2 {
            assert(s.drop_first().drop_first() == rest);
            assert(mask.drop_first().drop_first() == tail);
            assert(s.drop_first().first() == s[1]);
            assert(without_marked(s.drop_first(), mask.drop_first()) == seq![s[1]]
                + without_marked(rest, tail));
        } else {
            assert(s.drop_first() == rest);
            assert(mask.drop_first() == tail);
        }
    }
}

/// Without a dollar sign the open spans stay as they are.
proof fn lemma_scope_without_dollar(scope: MathScope, s: Seq<char>)
    requires
        without_dollar(s),
    ensures
        scope_after(scope, s) == scope,
    decreases s.len(),
{
    if s.len() > 0 {
        let token = token_of(scope, s);
        let rest = s.skip(token.len());
        assert forall|i: int| 0 <= i < rest.len() implies #[trigger] rest[i] != '$' by {
            assert(rest[i] == s[i + token.len()]);
        }
        lemma_scope_without_dollar(scope.after(token), rest);
    }
}

/// Only escaped underscores inside math are rewritten. A character that
/// the scan leaves out is a backslash directly before an underscore; a
/// span is open where it stands, so that a delimiter stands before it,
/// unless the scan began inside math; and a delimiter stands behind it,
/// unless the scan ends inside math.
pub proof fn lemma_dropped_inside_math(scope: MathScope, s: Seq<char>, at: int)
    requires
        0 <= at < s.len(),
        dropped(scope, s).len() == s.len(),
        dropped(scope, s)[at],
    ensures
        s[at] == '\\',
        at + 1 < s.len(),
        s[at + 1] == '_',
        scope.in_math() || dollar_before(s, at),
        scope_after(scope, s).in_math() || dollar_behind(s, at),
    decreases s.len(),
{
    let token = token_of(scope, s);
    let width = token.len();
    let rest = s.skip(width);
    let next = scope.after(token);
    let mask = dropped(scope, s);
    lemma_unescaped_is_text_without_dropped(next, rest);
    if at < width {
        // The token at the front is the escaped underscore.
        assert(token == MathToken::EscapedUnderscore && at == 0);
        if !scope_after(scope, s).in_math() {
            if without_dollar(rest) {
                lemma_scope_without_dollar(next, rest);
            } else {
                let i = choose|i: int| 0 <= i < rest.len() && rest[i] == '$';
                assert(s[i + width] == '$');
            }
        }
    } else {
        assert(mask[at] == dropped(next, rest)[at - width]);
        lemma_dropped_inside_math(next, rest, at - width);
        assert(rest[at - width] == s[at]);
        assert(rest[at - width + 1] == s[at + 1]);
        if !(scope.in_math() || dollar_before(s, at)) {
            // The span that is open at `at` was opened in `rest`, or by
            // the token at the front.
            if dollar_before(rest, at - width) {
                let i = choose|i: int| 0 <= i < at - width && i < rest.len() && rest[i] == '$';
                assert(s[i + width] == '$');
            } else {
                assert(s[0] == '$');
            }
        }
        if !scope_after(scope, s).in_math() {
            let i = choose|i: int| at - width < i < rest.len() && rest[i] == '$';
            assert(s[i + width] == '$');
        }
    }
}

/// Math scope isolation. In a document whose delimiters are matched, so
/// that the scan ends with no span open, every character that is left out
/// is a backslash directly before an underscore and stands between two
/// delimiters; all the rest of the document is written as it stands.
pub proof fn lemma_math_scope_isolation(content: Seq<char>)
    requires
        !scope_after(MathScope::prose(), content).in_math(),
    ensures
        dropped(MathScope::prose(), content).len() == content.len(),
        math_unescaped(content) == without_marked(content, dropped(MathScope::prose(), content)),
        forall|at: int|
            0 <= at < content.len() && #[trigger] dropped(MathScope::prose(), content)[at] ==> {
                &&& content[at] == '\\'
                &&& at + 1 < content.len()
                &&& content[at + 1] == '_'
                &&& dollar_before(content, at)
                &&& dollar_behind(content, at)
            },
{
    let scope = MathScope::prose();
    lemma_unescaped_is_text_without_dropped(scope, content);
    assert forall|at: int|
        0 <= at < content.len() && #[trigger] dropped(scope, content)[at] implies {
        &&& content[at] == '\\'
        &&& at + 1 < content.len()
        &&& content[at + 1] == '_'
        &&& dollar_before(content, at)
        &&& dollar_behind(content, at)
    } by {
        lemma_dropped_inside_math(scope, content, at);
    }
}

} // verus!
