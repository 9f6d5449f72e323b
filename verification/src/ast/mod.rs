//! Defines the Abstract Syntax Tree (AST) to hold a source program.
//!
//! The AST is obtained through the parsing stage implemented in the
//! [`crate::parser`] module and represents a machine-readable
//! version of a program for use in subsequent compiler stages.
//!
//! The structures are intentionally kept very simple to support
//! ergonomics and convenience when manipulating the AST. Every node owns
//! its children; what a tree holds, with sequences in place of vectors,
//! is its view, defined in [`view`].

use vstd::prelude::*;

mod clone;
pub mod expr;
pub mod stmt;
pub mod view;

use crate::diagnostic::SourceSpan;
use crate::lexer::Token;

verus! {

/// An identifier in the source code.
///
/// Identifiers are represented through their span in the source
/// file. Their string value must be fetched on demand.
#[derive(Clone, Copy, Debug, PartialEq, Eq)]
pub struct Ident {
    pub span: SourceSpan,
}

impl From<Token> for Ident {
    /// The identifier that the token `t` spells.
    fn from(t: Token) -> (ident: Self) {
        Self { span: t.span() }
    }
}

impl vstd::std_specs::convert::FromSpecImpl<Token> for Ident {
    open spec fn obeys_from_spec() -> bool {
        true
    }

    open spec fn from_spec(t: Token) -> Self {
        Ident { span: t.span }
    }
}

/// A declaration at the top level of a program or of a block.
#[derive(Debug, PartialEq, Eq)]
pub enum Item {
    Function(stmt::Function),
}

} // verus!
