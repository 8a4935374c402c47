//! Rewrites documents that hold multicode blocks, groups of the same code
//! sample in several languages, into markup with one tab for each language.
//!
//! A block starts at a line "```multicode" and ends at a line "```". Inside
//! it, a line ">>>>> rust" starts the section of a language and a line
//! "<<<<<" ends it. Everything outside blocks is kept as it is.

pub mod escape;
pub mod laws;
pub mod lines;
pub mod markup;
pub mod parser;
pub mod pattern;
pub mod preprocessor;
pub mod text;

pub use escape::html_escape;
pub use parser::ParseState;
pub use preprocessor::Multicode;
