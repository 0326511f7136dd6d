//! Markdown flavor transformation: rewriting passes that turn mdBook-style
//! admonitions, table-of-contents markers and LaTeX math into their
//! Docusaurus form, each stated over the document as a sequence of characters.

pub mod chars;
pub mod flavor;
pub mod lines;
pub mod pattern;
pub mod replacement;
pub mod transformers;
