//! Two deterministic text transforms for a code generator: a name sanitizer
//! that turns arbitrary schema-derived labels into valid, collision-free
//! identifier tokens, and a documentation sanitizer that gives every fenced
//! code block of an embedded Markdown document a non-empty info string.

pub mod docs;
pub mod error;
pub mod ident;

pub use docs::sanitize_documentation;
pub use error::SanitizeError;
pub use ident::{sanitize_name, sanitize_snake_case_name, Identifier};
