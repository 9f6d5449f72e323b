//! Defines structures for describing statements.

use vstd::prelude::*;

use super::{expr::Expression, Ident, Item};

verus! {

/// A statement of a block.
#[derive(Debug, PartialEq, Eq)]
pub enum Statement {
    /// A function that is declared inside the block.
    Item(Item),
    /// A binding with `let`, or with `mut` where `mutable` is set.
    Variable { ident: Ident, expr: Expression, mutable: bool },
    /// An expression that stands as a statement.
    Expression(Expression),
}

/// A function: its name, its parameters in their order, its return type,
/// where it names one, and the statements of its block in their order.
#[derive(Debug, PartialEq, Eq)]
pub struct Function {
    pub name: Ident,
    pub args: Vec<FunctionArg>,
    pub ret: Option<Ident>,
    pub block: Vec<Statement>,
}

/// A parameter of a function: its name and the name of its type.
#[derive(Clone, Copy, Debug, PartialEq, Eq)]
pub struct FunctionArg {
    pub name: Ident,
    pub typ: Ident,
}

} // verus!
