//! The transformers, one for each Markdown flavor.

pub mod admonition;
pub mod admonition_proofs;
pub mod docusaurus;
pub mod math;
pub mod math_proofs;
pub mod mdbook;
pub mod toc;
pub mod toc_proofs;

use crate::flavor::MarkdownFlavor;
use crate::transformers::docusaurus::DocusaurusTransformer;
use crate::transformers::mdbook::MdbookTransformer;
use vstd::prelude::*;

verus! {

/// A rewriting of Markdown documents for one flavor.
pub trait MarkdownTransformer {
    /// The document that `transform` makes of `content`.
    spec fn transformed(&self, content: Seq<char>) -> Seq<char>;

    /// Rewrites `content` for the flavor.
    fn transform(&self, content: &str) -> (out: String)
        ensures
            out@ == self.transformed(content@),
    ;
}

/// The transformer of a flavor.
pub enum Transformer {
    Mdbook(MdbookTransformer),
    Docusaurus(DocusaurusTransformer),
}

impl MarkdownTransformer for Transformer {
    open spec fn transformed(&self, content: Seq<char>) -> Seq<char> {
        match self {
            Transformer::Mdbook(inner) => inner.transformed(content),
            Transformer::Docusaurus(inner) => inner.transformed(content),
        }
    }

    fn transform(&self, content: &str) -> (out: String) {
        match self {
            Transformer::Mdbook(inner) => inner.transform(content),
            Transformer::Docusaurus(inner) => inner.transform(content),
        }
    }
}

/// The document that the transformer of `flavor` makes of `content`:
/// `content` itself for mdBook, and for Docusaurus what its five passes
/// make of it.
pub open spec fn flavor_transformed(flavor: MarkdownFlavor, content: Seq<char>) -> Seq<char> {
    match flavor {
        MarkdownFlavor::Mdbook => content,
        MarkdownFlavor::Docusaurus => DocusaurusTransformer.transformed(content),
    }
}

/// Passthrough. For mdBook the document is handed on as it is, by the
/// transformer itself and by the one that `get_transformer` returns.
pub proof fn lemma_mdbook_unchanged(content: Seq<char>)
    ensures
        MdbookTransformer.transformed(content) == content,
        Transformer::Mdbook(MdbookTransformer).transformed(content) == content,
        flavor_transformed(MarkdownFlavor::Mdbook, content) == content,
{
}

/// Returns the transformer for `flavor`.
pub fn get_transformer(flavor: MarkdownFlavor) -> (transformer: Transformer)
    ensures
        transformer == match flavor {
            MarkdownFlavor::Mdbook => Transformer::Mdbook(MdbookTransformer),
            MarkdownFlavor::Docusaurus => Transformer::Docusaurus(DocusaurusTransformer),
        },
        forall|content: Seq<char>| #[trigger]
            transformer.transformed(content) == flavor_transformed(flavor, content),
{
    match flavor {
        MarkdownFlavor::Mdbook => Transformer::Mdbook(MdbookTransformer),
        MarkdownFlavor::Docusaurus => Transformer::Docusaurus(DocusaurusTransformer),
    }
}

} // verus!
