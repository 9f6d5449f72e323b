//! What the parser reports of a program that it cannot accept.

use vstd::prelude::*;

use crate::diagnostic::SourceSpan;
use crate::lexer::TokenKind;

verus! {

/// A syntax error, with the place in the source at which it was found.
#[derive(Clone, Copy, Debug, PartialEq, Eq)]
pub enum ParseError {
    /// A token of kind `expected` was required where one of kind `actual`
    /// stands.
    UnexpectedToken { expected: TokenKind, actual: TokenKind, at: SourceSpan },
    /// The token starts no expression that the grammar handles.
    UnsupportedConstruct { at: SourceSpan },
    /// The number literal does not fit in 64 bits.
    IntegerOverflow { at: SourceSpan },
}

impl ParseError {
    /// Gets the place in the source at which the error was found.
    pub fn span(&self) -> (at: SourceSpan)
        ensures
            at == match *self {
                ParseError::UnexpectedToken { at, .. } => at,
                ParseError::UnsupportedConstruct { at } => at,
                ParseError::IntegerOverflow { at } => at,
            },
    {
        match self {
            ParseError::UnexpectedToken { at, .. } => *at,
            ParseError::UnsupportedConstruct { at } => *at,
            ParseError::IntegerOverflow { at } => *at,
        }
    }
}

} // verus!
