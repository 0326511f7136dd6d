//! The mdBook transformer.

use crate::transformers::MarkdownTransformer;
use vstd::prelude::*;

verus! {

/// The transformer for mdBook: it hands the document on as it is.
pub struct MdbookTransformer;

impl MarkdownTransformer for MdbookTransformer {
    open spec fn transformed(&self, content: Seq<char>) -> Seq<char> {
        content
    }

    fn transform(&self, content: &str) -> (out: String) {
        content.to_owned()
    }
}

} // verus!
