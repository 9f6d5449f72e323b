//! Defines structures for describing expressions.

use vstd::prelude::*;

mod array;
pub use array::Index;

mod call;
pub use call::Call;

mod literal;
pub use literal::Literal;

mod operator;
pub use operator::{
    AddressOf, ArithmeticLogical, ArithmeticLogicalOperator, Assignment, Boolean, BooleanOperator,
    Comparison, ComparisonOperator, CompoundAssignment, CompoundAssignmentOperator, Dereference,
    Negation, NegationOperator, Operator,
};

pub use super::Ident;
use super::stmt::Statement;
use super::view::{expression_views, ExpressionView};
use crate::lexer::TokenKind;

verus! {

/// An expression in the Serqlane language.
#[derive(Debug, PartialEq, Eq)]
pub enum Expression {
    Ident(Ident),
    Literal(Literal),
    Block { stmts: Vec<Statement> },
    Index(Index),
    Call(Call),
    Operator(Operator),
}

/// Whether a token of kind `op` is a prefix operator: `-`, `!`, `~`, `*`
/// or `&`.
pub open spec fn is_prefix_operator(op: TokenKind) -> bool {
    NegationOperator::of_token(op) is Some || op == TokenKind::And || op == TokenKind::Star
}

/// Whether a token of kind `op` is an infix operator.
pub open spec fn is_infix_operator(op: TokenKind) -> bool {
    ArithmeticLogicalOperator::of_token(op) is Some || ComparisonOperator::of_token(op) is Some
        || BooleanOperator::of_token(op) is Some || CompoundAssignmentOperator::of_token(op)
        is Some || op == TokenKind::Eq
}

impl ExpressionView {
    /// The expression that applies the prefix operator `op` to `expr`.
    pub open spec fn prefix(op: TokenKind, expr: ExpressionView) -> ExpressionView {
        match NegationOperator::of_token(op) {
            Some(negation) => ExpressionView::Negation { op: negation, expr: Box::new(expr) },
            None => if op == TokenKind::And {
                ExpressionView::AddressOf { expr: Box::new(expr) }
            } else {
                ExpressionView::Dereference { expr: Box::new(expr) }
            },
        }
    }

    /// The expression that joins `lhs` and `rhs` by the infix operator
    /// `op`.
    pub open spec fn infix(lhs: ExpressionView, op: TokenKind, rhs: ExpressionView)
        -> ExpressionView {
        let lhs = Box::new(lhs);
        let rhs = Box::new(rhs);
        if let Some(op) = ArithmeticLogicalOperator::of_token(op) {
            ExpressionView::ArithmeticLogical { lhs, op, rhs }
        } else if let Some(op) = ComparisonOperator::of_token(op) {
            ExpressionView::Comparison { lhs, op, rhs }
        } else if let Some(op) = BooleanOperator::of_token(op) {
            ExpressionView::Boolean { lhs, op, rhs }
        } else if let Some(op) = CompoundAssignmentOperator::of_token(op) {
            ExpressionView::CompoundAssignment { lhs, op, rhs }
        } else {
            ExpressionView::Assignment { lhs, rhs }
        }
    }
}

impl Expression {
    /// Creates a new index expression.
    ///
    /// `base` is the expression that is indexed, and `index` is the
    /// expression inside the `[]`.
    pub fn index(base: Expression, index: Expression) -> (e: Self)
        ensures
            e@ == (ExpressionView::Index { base: Box::new(base@), index: Box::new(index@) }),
    {
        let base = Box::new(base);
        let index = Box::new(index);
        Self::Index(Index { base, index })
    }

    /// Creates a call expression from a function expression and a vector
    /// of parameter expressions it is invoked with.
    pub fn call(func: Expression, params: Vec<Expression>) -> (e: Self)
        ensures
            e@ == (ExpressionView::Call {
                func: Box::new(func@),
                params: expression_views(params@),
            }),
    {
        let ghost views = expression_views(params@);
        let func = Box::new(func);
        let e = Self::Call(Call { func, params });
        proof {
            assert(e@->Call_params =~= views);
        }
        e
    }

    /// Creates a prefix operator expression that matches the given `op`.
    ///
    /// `op` must be a valid prefix operator.
    pub fn prefix_operator(op: TokenKind, expr: Expression) -> (e: Self)
        requires
            is_prefix_operator(op),
        ensures
            e@ == ExpressionView::prefix(op, expr@),
    {
        let expr = Box::new(expr);
        let op = match NegationOperator::from_token(op) {
            Some(op) => Operator::Negation(Negation { op, expr }),
            None => match op {
                TokenKind::And => Operator::AddressOf(AddressOf { expr }),
                _ => Operator::Dereference(Dereference { expr }),
            },
        };
        Self::Operator(op)
    }

    /// Creates an infix operator expression that matches the given `op`.
    ///
    /// `op` must be a valid infix operator.
    pub fn infix_operator(lhs: Expression, op: TokenKind, rhs: Expression) -> (e: Self)
        requires
            is_infix_operator(op),
        ensures
            e@ == ExpressionView::infix(lhs@, op, rhs@),
    {
        let lhs = Box::new(lhs);
        let rhs = Box::new(rhs);
        let op = if let Some(op) = ArithmeticLogicalOperator::from_token(op) {
            Operator::ArithmeticLogical(ArithmeticLogical { lhs, op, rhs })
        } else if let Some(op) = ComparisonOperator::from_token(op) {
            Operator::Comparison(Comparison { lhs, op, rhs })
        } else if let Some(op) = BooleanOperator::from_token(op) {
            Operator::Boolean(Boolean { lhs, op, rhs })
        } else if let Some(op) = CompoundAssignmentOperator::from_token(op) {
            Operator::CompoundAssignment(CompoundAssignment { lhs, op, rhs })
        } else {
            Operator::Assignment(Assignment { lhs, rhs })
        };
        Self::Operator(op)
    }
}

} // verus!
