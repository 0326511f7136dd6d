//! The Markdown flavor that a document is built for, and how it is chosen.

use crate::chars::{chars_of, same_chars};
use vstd::prelude::*;

verus! {

/// The name of the mdBook flavor.
pub const MDBOOK_NAME: &'static str = "mdbook";

/// The name of the Docusaurus flavor.
pub const DOCUSAURUS_NAME: &'static str = "docusaurus";

/// The Markdown dialect of the output.
#[derive(Clone, Copy, Debug, PartialEq, Eq, Structural)]
pub enum MarkdownFlavor {
    /// The dialect of the source: nothing is rewritten.
    Mdbook,
    /// Container blocks for admonitions, and math as the Docusaurus
    /// renderer takes it.
    Docusaurus,
}

impl Default for MarkdownFlavor {
    fn default() -> (flavor: MarkdownFlavor)
        ensures
            flavor == MarkdownFlavor::Mdbook,
    {
        MarkdownFlavor::Mdbook
    }
}

/// The lowercase form of `s`, as Unicode defines it.
pub uninterp spec fn lowercase_of(s: Seq<char>) -> Seq<char>;

/// Calls `str::to_lowercase`: the lowercase equivalent of `s`. Not proved:
/// the body is not verified, and the contract claims of the outcome only
/// that it is the one named above, which depends on `s` alone.
#[verifier::external_body]
fn to_lowercase(s: &str) -> (lower: String)
    ensures
        lower@ == lowercase_of(s@),
{
    s.to_lowercase()
}

/// The flavor whose name, in lowercase, is `lower`; the default flavor for
/// any other name.
pub open spec fn flavor_of_lowercase(lower: Seq<char>) -> MarkdownFlavor {
    if lower == MDBOOK_NAME@ {
        MarkdownFlavor::Mdbook
    } else if lower == DOCUSAURUS_NAME@ {
        MarkdownFlavor::Docusaurus
    } else {
        MarkdownFlavor::Mdbook
    }
}

/// The flavor that `name` stands for, whatever the case of its letters.
pub open spec fn flavor_named(name: Seq<char>) -> MarkdownFlavor {
    flavor_of_lowercase(lowercase_of(name))
}

/// The flavor to build for: the one given on the command line; else the
/// one that the configuration names; else the default.
pub open spec fn flavor_resolved(
    cli_flavor: Option<MarkdownFlavor>,
    configured: Option<Seq<char>>,
) -> MarkdownFlavor {
    match cli_flavor {
        Some(flavor) => flavor,
        None => match configured {
            Some(name) => flavor_named(name),
            None => MarkdownFlavor::Mdbook,
        },
    }
}

/// The characters of the name that a configuration gives, if it gives one.
pub open spec fn name_view(configured: Option<&str>) -> Option<Seq<char>> {
    match configured {
        Some(name) => Some(name@),
        None => None,
    }
}

/// The flavor whose name, in lowercase, is `lower`.
pub fn flavor_from_lowercase(lower: &str) -> (flavor: MarkdownFlavor)
    ensures
        flavor == flavor_of_lowercase(lower@),
{
    let given = chars_of(lower);
    if same_chars(&given, &chars_of(MDBOOK_NAME)) {
        MarkdownFlavor::Mdbook
    } else if same_chars(&given, &chars_of(DOCUSAURUS_NAME)) {
        MarkdownFlavor::Docusaurus
    } else {
        MarkdownFlavor::default()
    }
}

/// The flavor that `name` stands for, whatever the case of its letters.
pub fn flavor_from_name(name: &str) -> (flavor: MarkdownFlavor)
    ensures
        flavor == flavor_named(name@),
{
    let lower = to_lowercase(name);
    flavor_from_lowercase(lower.as_str())
}

/// Chooses the flavor to build for. A flavor given on the command line
/// wins over the one that the configuration names, and that one over the
/// default.
pub fn resolve_flavor(cli_flavor: Option<MarkdownFlavor>, configured: Option<&str>) -> (flavor:
    MarkdownFlavor)
    ensures
        flavor == flavor_resolved(cli_flavor, name_view(configured)),
{
    match cli_flavor {
        Some(flavor) => flavor,
        None => match configured {
            Some(name) => flavor_from_name(name),
            None => MarkdownFlavor::default(),
        },
    }
}

} // verus!
