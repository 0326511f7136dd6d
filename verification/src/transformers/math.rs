//! Math: the renaming of `align` environments, the splitting of
//! display-math delimiters from environment markers, and the scanner of
//! math spans.
//!
//! The scanner reads a document from left to right. It takes `$$` for the
//! delimiter of display math and any other `$` for the delimiter of inline
//! math; each delimiter opens a span of its kind or closes it. Inside a
//! span an escaped underscore is one token, which is written bare.

use crate::pattern::matches_replaced;
use crate::replacement::replaced;
use vstd::prelude::*;

verus! {

/// The opening marker of the `align` environment.
pub const ALIGN_BEGIN: &'static str = "\\begin{align}";

/// The opening marker of the `aligned` environment.
pub const ALIGNED_BEGIN: &'static str = "\\begin{aligned}";

/// The closing marker of the `align` environment.
pub const ALIGN_END: &'static str = "\\end{align}";

/// The closing marker of the `aligned` environment.
pub const ALIGNED_END: &'static str = "\\end{aligned}";

/// The pattern of a display-math delimiter directly before the opening
/// marker of an environment: `$$\begin{`.
pub const GLUED_BEGIN_PATTERN: &'static str = "\\$\\$\\\\begin\\{";

/// What replaces a match of the pattern above: the delimiter, a line feed,
/// and the marker.
pub const SPLIT_BEGIN: &'static str = "$$$$\n\\begin{";

/// The pattern of the closing marker of an environment directly before a
/// display-math delimiter: `\end{`, a name, `}$$`. Its first group is the
/// name.
pub const GLUED_END_PATTERN: &'static str = "\\\\end\\{([^}]+)\\}\\$\\$";

/// What replaces a match of the pattern above: the marker, a line feed, and
/// the delimiter.
pub const SPLIT_END: &'static str = "\\end{$1}\n$$$$";

/// An underscore with the backslash that escapes it.
pub const ESCAPED_UNDERSCORE: &'static str = "\\_";

/// An underscore.
pub const BARE_UNDERSCORE: &'static str = "_";

/// The document with every `align` environment renamed to `aligned`: first
/// the opening markers, then the closing ones.
pub open spec fn align_renamed(content: Seq<char>) -> Seq<char> {
    replaced(replaced(content, ALIGN_BEGIN@, ALIGNED_BEGIN@), ALIGN_END@, ALIGNED_END@)
}

/// The document with its display-math delimiters on lines of their own:
/// a line feed stands between each delimiter and the environment marker
/// that it was glued to, first before the opening markers, then behind the
/// closing ones.
pub open spec fn delimiters_split(content: Seq<char>) -> Seq<char> {
    matches_replaced(
        GLUED_END_PATTERN@,
        matches_replaced(GLUED_BEGIN_PATTERN@, content, SPLIT_BEGIN@),
        SPLIT_END@,
    )
}

/// Which math spans are open at a point of the scan: for either delimiter,
/// whether an odd number of it has been read.
#[derive(Clone, Copy, Debug, PartialEq, Eq, Structural)]
pub struct MathScope {
    /// Whether an inline span is open.
    pub inline: bool,
    /// Whether a display span is open.
    pub display: bool,
}

/// What the scanner reads in one step.
#[derive(Clone, Copy, Debug, PartialEq, Eq, Structural)]
pub enum MathToken {
    /// `$$`, the delimiter of display math.
    Display,
    /// `$`, the delimiter of inline math.
    Inline,
    /// A backslash and an underscore, inside math.
    EscapedUnderscore,
    /// Any other character.
    Plain(char),
}

impl MathScope {
    /// Outside any math span.
    pub open spec fn prose() -> MathScope {
        MathScope { inline: false, display: false }
    }

    /// Whether a math span is open.
    pub open spec fn in_math(self) -> bool {
        self.inline || self.display
    }

    /// The spans that are open behind `token`: a delimiter opens a span of
    /// its kind where none is open, and closes the one that is.
    pub open spec fn after(self, token: MathToken) -> MathScope {
        match token {
            MathToken::Display => MathScope { inline: self.inline, display: !self.display },
            MathToken::Inline => MathScope { inline: !self.inline, display: self.display },
            _ => self,
        }
    }

    /// The spans that are open behind `token`.
    pub fn step(self, token: MathToken) -> (next: MathScope)
        ensures
            next == self.after(token),
    {
        match token {
            MathToken::Display => MathScope { inline: self.inline, display: !self.display },
            MathToken::Inline => MathScope { inline: !self.inline, display: self.display },
            _ => self,
        }
    }
}

impl MathToken {
    /// The number of characters that the token takes.
    pub open spec fn len(self) -> int {
        match self {
            MathToken::Display | MathToken::EscapedUnderscore => 2,
            _ => 1,
        }
    }

    /// What is written for the token: the token itself, but for an escaped
    /// underscore, which is written bare.
    pub open spec fn written(self) -> Seq<char> {
        match self {
            MathToken::Display => seq!['$', '$'],
            MathToken::Inline => seq!['$'],
            MathToken::EscapedUnderscore => seq!['_'],
            MathToken::Plain(c) => seq![c],
        }
    }

    /// The number of characters that the token takes.
    pub fn width(self) -> (n: usize)
        ensures
            n == self.len(),
    {
        match self {
            MathToken::Display | MathToken::EscapedUnderscore => 2,
            _ => 1,
        }
    }

    /// Appends what is written for the token to `out`.
    pub fn write(self, out: &mut Vec<char>)
        ensures
            final(out)@ == old(out)@ + self.written(),
    {
        match self {
            MathToken::Display => {
                out.push('$');
                out.push('$');
            },
            MathToken::Inline => {
                out.push('$');
            },
            MathToken::EscapedUnderscore => {
                out.push('_');
            },
            MathToken::Plain(c) => {
                out.push(c);
            },
        }
    }
}

/// The token that `s`, which is not empty, begins with, at a point where
/// the spans of `scope` are open. Two dollar signs are one delimiter; a
/// backslash and an underscore are one token inside math only.
pub open spec fn token_of(scope: MathScope, s: Seq<char>) -> MathToken {
    if s[0] == '$' {
        if s.len() > 1 && s[1] == '$' {
            MathToken::Display
        } else {
            MathToken::Inline
        }
    } else if scope.in_math() && s[0] == '\\' && s.len() > 1 && s[1] == '_' {
        MathToken::EscapedUnderscore
    } else {
        MathToken::Plain(s[0])
    }
}

/// What is written for `s`, scanned from a point where the spans of
/// `scope` are open.
pub open spec fn unescaped_from(scope: MathScope, s: Seq<char>) -> Seq<char>
    decreases s.len(),
{
    if s.len() == 0 {
        s
    } else {
        let token = token_of(scope, s);
        token.written() + unescaped_from(scope.after(token), s.skip(token.len()))
    }
}

/// The spans that are open behind `s`, scanned from a point where the
/// spans of `scope` are open.
pub open spec fn scope_after(scope: MathScope, s: Seq<char>) -> MathScope
    decreases s.len(),
{
    if s.len() == 0 {
        scope
    } else {
        let token = token_of(scope, s);
        scope_after(scope.after(token), s.skip(token.len()))
    }
}

/// The document with the escaped underscores of its math spans written
/// bare.
pub open spec fn math_unescaped(content: Seq<char>) -> Seq<char> {
    unescaped_from(MathScope::prose(), content)
}

/// Reads the token of `chars` at `pos`, at a point where the spans of
/// `scope` are open.
pub fn scan_token(scope: MathScope, chars: &Vec<char>, pos: usize) -> (token: MathToken)
    requires
        pos < chars.len(),
    ensures
        token == token_of(scope, chars@.skip(pos as int)),
        pos + token.len() <= chars.len(),
{
    let c = chars[pos];
    let paired = pos + 1 < chars.len();
    if c == '$' {
        if paired && chars[pos + 1] == '$' {
            MathToken::Display
        } else {
            MathToken::Inline
        }
    } else if (scope.inline || scope.display) && c == '\\' && paired && chars[pos + 1] == '_' {
        MathToken::EscapedUnderscore
    } else {
        MathToken::Plain(c)
    }
}

} // verus!
