//! A book preprocessor that expands a small vocabulary of literal markers
//! into HTML fragments for theorem statements and collapsible proof blocks.
//!
//! The substitution engine lives in [`engine`]: an ordered table of three
//! marker rules is applied sequentially to a text, each rule replacing every
//! non-overlapping occurrence of its marker, left to right, in the string
//! produced by the previous rule. The document-tree walker lives in
//! [`walker`]: it applies the engine to the content of every chapter of a
//! book, leaving the tree's shape and all other data untouched.

pub mod engine;
pub mod walker;

pub use engine::replace_placeholders;
pub use engine::TransformError;
pub use walker::Book;
pub use walker::BookItem;
pub use walker::Chapter;
pub use walker::MathEvns;
