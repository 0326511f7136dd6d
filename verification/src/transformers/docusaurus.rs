//! The Docusaurus transformer and its five passes.

use crate::chars::{append_chars, chars_of, copy_range, indent_length, lemma_indent_len, string_of};
use crate::lines::{breaks_of, joined, lines_of, next_line};
use crate::pattern::replace_matches;
use crate::replacement::replace_all;
use crate::transformers::admonition::{
    admonitions_rewritten, line_rewritten, lines_rewritten, opening_kind, rewrite_line,
    FenceState,
};
use crate::transformers::math::{
    align_renamed, delimiters_split, math_unescaped, scan_token, unescaped_from, MathScope,
    ALIGNED_BEGIN, ALIGNED_END, ALIGN_BEGIN, ALIGN_END, GLUED_BEGIN_PATTERN, GLUED_END_PATTERN,
    SPLIT_BEGIN, SPLIT_END,
};
use crate::transformers::toc::{keep_or_drop_line, markers_removed};
use crate::transformers::MarkdownTransformer;
use vstd::prelude::*;

verus! {

/// The transformer for Docusaurus: it rewrites admonitions, math and
/// table-of-contents markers.
pub struct DocusaurusTransformer;

impl MarkdownTransformer for DocusaurusTransformer {
    /// The passes in their order: admonitions, `align` environments,
    /// display-math delimiters, table-of-contents markers, underscores.
    open spec fn transformed(&self, content: Seq<char>) -> Seq<char> {
        math_unescaped(
            markers_removed(delimiters_split(align_renamed(admonitions_rewritten(content)))),
        )
    }

    fn transform(&self, content: &str) -> (out: String) {
        let content = transform_admonitions(content);
        let content = transform_math_align(content.as_str());
        let content = split_math_delimiters(content.as_str());
        let content = remove_toc_markers(content.as_str());
        transform_math_underscores(content.as_str())
    }
}

/// Rewrites the admonition blocks of `content` to container blocks: an
/// opening fence becomes `:::` and the kind, its closing fence `:::`, both
/// indented as the fence was. Every other line is written as it stands,
/// and every line keeps its line break.
pub fn transform_admonitions(content: &str) -> (out: String)
    ensures
        out@ == admonitions_rewritten(content@),
{
    let chars = chars_of(content);
    let mut written: Vec<char> = Vec::new();
    let mut state = FenceState::Outside;
    let mut pos: usize = 0;
    assert(chars@.skip(0) == chars@);
    while pos < chars.len()
        invariant
            pos <= chars.len(),
            admonitions_rewritten(chars@) == written@ + joined(
                lines_rewritten(state@, lines_of(chars@.skip(pos as int))),
                breaks_of(chars@.skip(pos as int)),
            ),
        decreases chars.len() - pos,
    {
        let (line, line_break, next) = next_line(&chars, pos);
        let opening = match state {
            FenceState::Outside => {
                let width = indent_length(&line);
                proof {
                    lemma_indent_len(line@);
                }
                opening_kind(&copy_range(&line, width, line.len()))
            },
            FenceState::Inside(_) => None,
        };
        let ghost before = state@;
        let (after, rewritten) = rewrite_line(state, &line, opening);
        proof {
            // What is written for the lines that are left is `rewritten`,
            // the line break, and what is written for the other lines.
            let tail = lines_of(chars@.skip(next as int));
            let lines = seq![line@] + tail;
            assert(lines.first() == line@);
            assert(lines.drop_first() == tail);
            assert((after@, rewritten@) == line_rewritten(before, line@));
            let out_tail = lines_rewritten(after@, tail);
            let out_lines = seq![rewritten@] + out_tail;
            assert(lines_rewritten(before, lines) == out_lines);
            assert(out_lines.first() == rewritten@);
            assert(out_lines.drop_first() == out_tail);
            let breaks_tail = breaks_of(chars@.skip(next as int));
            let breaks = seq![line_break@] + breaks_tail;
            assert(breaks.first() == line_break@);
            assert(breaks.drop_first() == breaks_tail);
            assert(joined(out_lines, breaks) == rewritten@ + line_break@ + joined(
                out_tail,
                breaks_tail,
            ));
        }
        append_chars(&mut written, &rewritten);
        append_chars(&mut written, &line_break);
        state = after;
        pos = next;
    }
    assert(lines_of(chars@.skip(pos as int)) == Seq::<Seq<char>>::empty());
    assert(written@.subrange(0, written@.len() as int) == written@);
    string_of(&written, 0, written.len())
}

/// Renames every `align` environment of `content` to `aligned`: the marker
/// `\begin{align}` becomes `\begin{aligned}`, and `\end{align}` becomes
/// `\end{aligned}`.
pub fn transform_math_align(content: &str) -> (out: String)
    ensures
        out@ == align_renamed(content@),
{
    let chars = chars_of(content);
    let opened = replace_all(&chars, &chars_of(ALIGN_BEGIN), &chars_of(ALIGNED_BEGIN));
    let closed = replace_all(&opened, &chars_of(ALIGN_END), &chars_of(ALIGNED_END));
    string_of(&closed, 0, closed.len())
}

/// Puts the display-math delimiters of `content` on lines of their own:
/// `$$\begin{` becomes `$$`, a line feed and `\begin{`; then `\end{`, a name
/// and `}$$` becomes `\end{`, the name, `}`, a line feed and `$$`.
pub fn split_math_delimiters(content: &str) -> (out: String)
    ensures
        out@ == delimiters_split(content@),
{
    let opened = replace_matches(GLUED_BEGIN_PATTERN, content, SPLIT_BEGIN);
    replace_matches(GLUED_END_PATTERN, opened.as_str(), SPLIT_END)
}

/// Removes the table-of-contents markers of `content`: a line that holds
/// nothing but the marker is left out with the line feed that ends it, and
/// every other line is written as it stands.
pub fn remove_toc_markers(content: &str) -> (out: String)
    ensures
        out@ == markers_removed(content@),
{
    let chars = chars_of(content);
    let mut written: Vec<char> = Vec::new();
    let mut pos: usize = 0;
    assert(chars@.skip(0) == chars@);
    while pos < chars.len()
        invariant
            pos <= chars.len(),
            markers_removed(chars@) == written@ + markers_removed(chars@.skip(pos as int)),
        decreases chars.len() - pos,
    {
        pos = keep_or_drop_line(&chars, pos, &mut written);
    }
    assert(written@.subrange(0, written@.len() as int) == written@);
    string_of(&written, 0, written.len())
}

/// Writes the escaped underscores of the math spans of `content` bare:
/// inside `$...$` and `$$...$$` a backslash before an underscore is left
/// out; everything else is written as it stands.
pub fn transform_math_underscores(content: &str) -> (out: String)
    ensures
        out@ == math_unescaped(content@),
{
    let chars = chars_of(content);
    let mut written: Vec<char> = Vec::new();
    let mut scope = MathScope { inline: false, display: false };
    let mut pos: usize = 0;
    assert(chars@.skip(0) == chars@);
    while pos < chars.len()
        invariant
            pos <= chars.len(),
            math_unescaped(chars@) == written@ + unescaped_from(scope, chars@.skip(pos as int)),
        decreases chars.len() - pos,
    {
        let token = scan_token(scope, &chars, pos);
        assert(chars@.skip(pos as int).skip(token.len()) == chars@.skip(pos + token.len()));
        token.write(&mut written);
        scope = scope.step(token);
        pos = pos + token.width();
    }
    string_of(&written, 0, written.len())
}

} // verus!
