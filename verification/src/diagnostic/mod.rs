//! Addressing into source text for diagnostics.

mod span;
pub use span::{SourceLocation, SourceSpan};
