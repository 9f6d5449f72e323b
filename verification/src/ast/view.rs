//! What a syntax tree holds, as a ghost value.
//!
//! The views mirror the tree with sequences in place of vectors and with
//! one variant for each form of expression. Contracts speak of them.

use vstd::prelude::*;

use super::expr::{
    ArithmeticLogicalOperator, BooleanOperator, ComparisonOperator, CompoundAssignmentOperator,
    Expression, Literal, NegationOperator, Operator,
};
use super::stmt::{Function, FunctionArg, Statement};
use super::{Ident, Item};

verus! {

/// The view of an [`Expression`].
pub enum ExpressionView {
    Ident(Ident),
    Literal(Literal),
    Block { stmts: Seq<StatementView> },
    Index { base: Box<ExpressionView>, index: Box<ExpressionView> },
    Call { func: Box<ExpressionView>, params: Seq<ExpressionView> },
    ArithmeticLogical {
        lhs: Box<ExpressionView>,
        op: ArithmeticLogicalOperator,
        rhs: Box<ExpressionView>,
    },
    Comparison { lhs: Box<ExpressionView>, op: ComparisonOperator, rhs: Box<ExpressionView> },
    CompoundAssignment {
        lhs: Box<ExpressionView>,
        op: CompoundAssignmentOperator,
        rhs: Box<ExpressionView>,
    },
    Boolean { lhs: Box<ExpressionView>, op: BooleanOperator, rhs: Box<ExpressionView> },
    Negation { op: NegationOperator, expr: Box<ExpressionView> },
    Assignment { lhs: Box<ExpressionView>, rhs: Box<ExpressionView> },
    AddressOf { expr: Box<ExpressionView> },
    Dereference { expr: Box<ExpressionView> },
}

/// The view of a [`Statement`].
pub enum StatementView {
    Item(ItemView),
    Variable { ident: Ident, expr: ExpressionView, mutable: bool },
    Expression(ExpressionView),
}

/// The view of an [`Item`].
pub enum ItemView {
    Function(FunctionView),
}

/// The view of a [`Function`].
pub struct FunctionView {
    pub name: Ident,
    pub args: Seq<FunctionArg>,
    pub ret: Option<Ident>,
    pub block: Seq<StatementView>,
}

impl Expression {
    /// The view of the expression.
    pub open spec fn model(&self) -> ExpressionView
        decreases self,
    {
        match self {
            Expression::Ident(ident) => ExpressionView::Ident(*ident),
            Expression::Literal(literal) => ExpressionView::Literal(*literal),
            Expression::Block { stmts } => ExpressionView::Block {
                stmts: Seq::new(
                    stmts@.len(),
                    |i: int|
                        if 0 <= i < stmts@.len() {
                            stmts@[i].model()
                        } else {
                            arbitrary()
                        },
                ),
            },
            Expression::Index(e) => ExpressionView::Index {
                base: Box::new((*e.base).model()),
                index: Box::new((*e.index).model()),
            },
            Expression::Call(e) => ExpressionView::Call {
                func: Box::new((*e.func).model()),
                params: Seq::new(
                    e.params@.len(),
                    |i: int|
                        if 0 <= i < e.params@.len() {
                            e.params@[i].model()
                        } else {
                            arbitrary()
                        },
                ),
            },
            Expression::Operator(Operator::ArithmeticLogical(e)) => {
                ExpressionView::ArithmeticLogical {
                    lhs: Box::new((*e.lhs).model()),
                    op: e.op,
                    rhs: Box::new((*e.rhs).model()),
                }
            },
            Expression::Operator(Operator::Comparison(e)) => ExpressionView::Comparison {
                lhs: Box::new((*e.lhs).model()),
                op: e.op,
                rhs: Box::new((*e.rhs).model()),
            },
            Expression::Operator(Operator::CompoundAssignment(e)) => {
                ExpressionView::CompoundAssignment {
                    lhs: Box::new((*e.lhs).model()),
                    op: e.op,
                    rhs: Box::new((*e.rhs).model()),
                }
            },
            Expression::Operator(Operator::Boolean(e)) => ExpressionView::Boolean {
                lhs: Box::new((*e.lhs).model()),
                op: e.op,
                rhs: Box::new((*e.rhs).model()),
            },
            Expression::Operator(Operator::Negation(e)) => ExpressionView::Negation {
                op: e.op,
                expr: Box::new((*e.expr).model()),
            },
            Expression::Operator(Operator::Assignment(e)) => ExpressionView::Assignment {
                lhs: Box::new((*e.lhs).model()),
                rhs: Box::new((*e.rhs).model()),
            },
            Expression::Operator(Operator::AddressOf(e)) => ExpressionView::AddressOf {
                expr: Box::new((*e.expr).model()),
            },
            Expression::Operator(Operator::Dereference(e)) => ExpressionView::Dereference {
                expr: Box::new((*e.expr).model()),
            },
        }
    }
}

impl Statement {
    /// The view of the statement.
    pub open spec fn model(&self) -> StatementView
        decreases self,
    {
        match self {
            Statement::Item(item) => StatementView::Item(item.model()),
            Statement::Variable { ident, expr, mutable } => StatementView::Variable {
                ident: *ident,
                expr: expr.model(),
                mutable: *mutable,
            },
            Statement::Expression(expr) => StatementView::Expression(expr.model()),
        }
    }
}

impl Item {
    /// The view of the item.
    pub open spec fn model(&self) -> ItemView
        decreases self,
    {
        match self {
            Item::Function(function) => ItemView::Function(function.model()),
        }
    }
}

impl Function {
    /// The view of the function.
    pub open spec fn model(&self) -> FunctionView
        decreases self,
    {
        FunctionView {
            name: self.name,
            args: self.args@,
            ret: self.ret,
            block: Seq::new(
                self.block@.len(),
                |i: int|
                    if 0 <= i < self.block@.len() {
                        self.block@[i].model()
                    } else {
                        arbitrary()
                    },
            ),
        }
    }
}

impl View for Expression {
    type V = ExpressionView;

    open spec fn view(&self) -> ExpressionView {
        self.model()
    }
}

impl View for Statement {
    type V = StatementView;

    open spec fn view(&self) -> StatementView {
        self.model()
    }
}

impl View for Item {
    type V = ItemView;

    open spec fn view(&self) -> ItemView {
        self.model()
    }
}

impl View for Function {
    type V = FunctionView;

    open spec fn view(&self) -> FunctionView {
        self.model()
    }
}

/// The views of the expressions in `exprs`, in their order.
pub open spec fn expression_views(exprs: Seq<Expression>) -> Seq<ExpressionView> {
    Seq::new(exprs.len(), |i: int| exprs[i]@)
}

/// The views of the statements in `stmts`, in their order.
pub open spec fn statement_views(stmts: Seq<Statement>) -> Seq<StatementView> {
    Seq::new(stmts.len(), |i: int| stmts[i]@)
}

/// The views of the items in `items`, in their order.
pub open spec fn item_views(items: Seq<Item>) -> Seq<ItemView> {
    Seq::new(items.len(), |i: int| items[i]@)
}

} // verus!
