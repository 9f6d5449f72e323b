use vstd::prelude::*;

use super::Expression;
use crate::lexer::TokenKind;

verus! {

/// An expression that involves binary or logical operators.
#[derive(Debug, PartialEq, Eq)]
pub enum Operator {
    ArithmeticLogical(ArithmeticLogical),
    Comparison(Comparison),
    CompoundAssignment(CompoundAssignment),
    Boolean(Boolean),
    Negation(Negation),
    Assignment(Assignment),
    AddressOf(AddressOf),
    Dereference(Dereference),
}

/// An expression that combines two expresssions with an operator.
///
/// E.g. `a + b`, `1 << 3`.
#[derive(Debug, PartialEq, Eq)]
pub struct ArithmeticLogical {
    pub lhs: Box<Expression>,
    pub op: ArithmeticLogicalOperator,
    pub rhs: Box<Expression>,
}

/// An operator in an [`ArithmeticLogical`] expression.
#[derive(Clone, Copy, Debug, PartialEq, Eq, Structural)]
pub enum ArithmeticLogicalOperator {
    Plus,
    Minus,
    Multiply,
    Divide,
    Modulo,
    And,
    Or,
    Xor,
    Shl,
    Shr,
}

impl ArithmeticLogicalOperator {
    /// The operator that a token of kind `op` stands for, if it stands for
    /// one of this group.
    pub open spec fn of_token(op: TokenKind) -> Option<Self> {
        match op {
            TokenKind::Plus => Some(Self::Plus),
            TokenKind::Minus => Some(Self::Minus),
            TokenKind::Star => Some(Self::Multiply),
            TokenKind::Slash => Some(Self::Divide),
            TokenKind::Percent => Some(Self::Modulo),
            TokenKind::And => Some(Self::And),
            TokenKind::Or => Some(Self::Or),
            TokenKind::Caret => Some(Self::Xor),
            TokenKind::Shl => Some(Self::Shl),
            TokenKind::Shr => Some(Self::Shr),
            _ => None,
        }
    }

    /// Gets the operator that a token of kind `op` stands for, if it stands
    /// for one of this group.
    #[verifier::when_used_as_spec(of_token)]
    pub fn from_token(op: TokenKind) -> (r: Option<Self>)
        ensures
            r == Self::of_token(op),
    {
        match op {
            TokenKind::Plus => Some(Self::Plus),
            TokenKind::Minus => Some(Self::Minus),
            TokenKind::Star => Some(Self::Multiply),
            TokenKind::Slash => Some(Self::Divide),
            TokenKind::Percent => Some(Self::Modulo),
            TokenKind::And => Some(Self::And),
            TokenKind::Or => Some(Self::Or),
            TokenKind::Caret => Some(Self::Xor),
            TokenKind::Shl => Some(Self::Shl),
            TokenKind::Shr => Some(Self::Shr),
            _ => None,
        }
    }
}

/// An expression that compares two other expressions.
///
/// E.g. `a <= b`, `(5 + 1) < (5 * 2)`.
#[derive(Debug, PartialEq, Eq)]
pub struct Comparison {
    pub lhs: Box<Expression>,
    pub op: ComparisonOperator,
    pub rhs: Box<Expression>,
}

/// An operator in a [`Comparison`] expression.
#[derive(Clone, Copy, Debug, PartialEq, Eq, Structural)]
pub enum ComparisonOperator {
    Eq,
    NotEq,
    Lt,
    Gt,
    LtEq,
    GtEq,
}

impl ComparisonOperator {
    /// The operator that a token of kind `op` stands for, if it stands for
    /// one of this group.
    pub open spec fn of_token(op: TokenKind) -> Option<Self> {
        match op {
            TokenKind::EqEq => Some(Self::Eq),
            TokenKind::BangEq => Some(Self::NotEq),
            TokenKind::Lt => Some(Self::Lt),
            TokenKind::Gt => Some(Self::Gt),
            TokenKind::LtEq => Some(Self::LtEq),
            TokenKind::GtEq => Some(Self::GtEq),
            _ => None,
        }
    }

    /// Gets the operator that a token of kind `op` stands for, if it stands
    /// for one of this group.
    #[verifier::when_used_as_spec(of_token)]
    pub fn from_token(op: TokenKind) -> (r: Option<Self>)
        ensures
            r == Self::of_token(op),
    {
        match op {
            TokenKind::EqEq => Some(Self::Eq),
            TokenKind::BangEq => Some(Self::NotEq),
            TokenKind::Lt => Some(Self::Lt),
            TokenKind::Gt => Some(Self::Gt),
            TokenKind::LtEq => Some(Self::LtEq),
            TokenKind::GtEq => Some(Self::GtEq),
            _ => None,
        }
    }
}

/// An expression that combines arithmetic and logical operators on
/// the values of `lhs` and `rhs` with an assignment to `lhs`.
///
/// E.g. `a += 5`.
#[derive(Debug, PartialEq, Eq)]
pub struct CompoundAssignment {
    pub lhs: Box<Expression>,
    pub op: CompoundAssignmentOperator,
    pub rhs: Box<Expression>,
}

/// An operator in a [`CompoundAssignment`] expression.
#[derive(Clone, Copy, Debug, PartialEq, Eq, Structural)]
pub enum CompoundAssignmentOperator {
    Plus,
    Minus,
    Multiply,
    Divide,
    Modulo,
    And,
    Or,
    Xor,
    Shl,
    Shr,
}

impl CompoundAssignmentOperator {
    /// The operator that a token of kind `op` stands for, if it stands for
    /// one of this group.
    pub open spec fn of_token(op: TokenKind) -> Option<Self> {
        match op {
            TokenKind::PlusEq => Some(Self::Plus),
            TokenKind::MinusEq => Some(Self::Minus),
            TokenKind::StarEq => Some(Self::Multiply),
            TokenKind::SlashEq => Some(Self::Divide),
            TokenKind::PercentEq => Some(Self::Modulo),
            TokenKind::AndEq => Some(Self::And),
            TokenKind::OrEq => Some(Self::Or),
            TokenKind::CaretEq => Some(Self::Xor),
            TokenKind::ShlEq => Some(Self::Shl),
            TokenKind::ShrEq => Some(Self::Shr),
            _ => None,
        }
    }

    /// Gets the operator that a token of kind `op` stands for, if it stands
    /// for one of this group.
    #[verifier::when_used_as_spec(of_token)]
    pub fn from_token(op: TokenKind) -> (r: Option<Self>)
        ensures
            r == Self::of_token(op),
    {
        match op {
            TokenKind::PlusEq => Some(Self::Plus),
            TokenKind::MinusEq => Some(Self::Minus),
            TokenKind::StarEq => Some(Self::Multiply),
            TokenKind::SlashEq => Some(Self::Divide),
            TokenKind::PercentEq => Some(Self::Modulo),
            TokenKind::AndEq => Some(Self::And),
            TokenKind::OrEq => Some(Self::Or),
            TokenKind::CaretEq => Some(Self::Xor),
            TokenKind::ShlEq => Some(Self::Shl),
            TokenKind::ShrEq => Some(Self::Shr),
            _ => None,
        }
    }
}

/// An expression that combines two boolean expressions `lhs` and
/// `rhs` with a logical operator.
///
/// E.g. `a && b`.
#[derive(Debug, PartialEq, Eq)]
pub struct Boolean {
    pub lhs: Box<Expression>,
    pub op: BooleanOperator,
    pub rhs: Box<Expression>,
}

/// An operator in a [`Boolean`] expression.
#[derive(Clone, Copy, Debug, PartialEq, Eq, Structural)]
pub enum BooleanOperator {
    And,
    Or,
}

impl BooleanOperator {
    /// The operator that a token of kind `op` stands for, if it stands for
    /// one of this group.
    pub open spec fn of_token(op: TokenKind) -> Option<Self> {
        match op {
            TokenKind::AndAnd => Some(Self::And),
            TokenKind::OrOr => Some(Self::Or),
            _ => None,
        }
    }

    /// Gets the operator that a token of kind `op` stands for, if it stands
    /// for one of this group.
    #[verifier::when_used_as_spec(of_token)]
    pub fn from_token(op: TokenKind) -> (r: Option<Self>)
        ensures
            r == Self::of_token(op),
    {
        match op {
            TokenKind::AndAnd => Some(Self::And),
            TokenKind::OrOr => Some(Self::Or),
            _ => None,
        }
    }
}

/// An expression that negates another expression.
///
/// E.g. `-(5 + 2)`, `!(a && b && c)`.
#[derive(Debug, PartialEq, Eq)]
pub struct Negation {
    pub op: NegationOperator,
    pub expr: Box<Expression>,
}

/// An operator in a [`Negation`] expression.
#[derive(Clone, Copy, Debug, PartialEq, Eq, Structural)]
pub enum NegationOperator {
    Negation,
    LogicalNot,
    BitwiseNot,
}

impl NegationOperator {
    /// The operator that a token of kind `op` stands for, if it stands for
    /// one of this group.
    pub open spec fn of_token(op: TokenKind) -> Option<Self> {
        match op {
            TokenKind::Minus => Some(Self::Negation),
            TokenKind::Bang => Some(Self::LogicalNot),
            TokenKind::Tilde => Some(Self::BitwiseNot),
            _ => None,
        }
    }

    /// Gets the operator that a token of kind `op` stands for, if it stands
    /// for one of this group.
    #[verifier::when_used_as_spec(of_token)]
    pub fn from_token(op: TokenKind) -> (r: Option<Self>)
        ensures
            r == Self::of_token(op),
    {
        match op {
            TokenKind::Minus => Some(Self::Negation),
            TokenKind::Bang => Some(Self::LogicalNot),
            TokenKind::Tilde => Some(Self::BitwiseNot),
            _ => None,
        }
    }
}

/// Assigns the value of `rhs` to `lhs`.
///
/// E.g. `a = 5 + 2`.
#[derive(Debug, PartialEq, Eq)]
pub struct Assignment {
    pub lhs: Box<Expression>,
    pub rhs: Box<Expression>,
}

/// An expression that creates a reference to the evaluation of another
/// expression.
///
/// E.g. `&a`.
#[derive(Debug, PartialEq, Eq)]
pub struct AddressOf {
    pub expr: Box<Expression>,
}

/// An expression that dereferences another expression.
///
/// E.g. `*ptr`.
#[derive(Debug, PartialEq, Eq)]
pub struct Dereference {
    pub expr: Box<Expression>,
}

} // verus!
