//! Copies of syntax trees.

use vstd::prelude::*;

use super::expr::{
    AddressOf, ArithmeticLogical, Assignment, Boolean, Call, Comparison, CompoundAssignment,
    Dereference, Expression, Index, Negation, Operator,
};
use super::stmt::{Function, FunctionArg, Statement};
use super::view::{expression_views, statement_views};
use super::Item;

verus! {

impl Expression {
    /// Copies the expression with everything below it.
    pub fn duplicate(&self) -> (copy: Self)
        ensures
            copy@ == self@,
        decreases self,
    {
        match self {
            Expression::Ident(ident) => Expression::Ident(*ident),
            Expression::Literal(literal) => Expression::Literal(*literal),
            Expression::Block { stmts } => {
                let copies = duplicate_statements(stmts);
                let copy = Expression::Block { stmts: copies };
                proof {
                    assert(copy@->Block_stmts =~= statement_views(copies@));
                    assert(self@->Block_stmts =~= statement_views(stmts@));
                }
                copy
            },
            Expression::Index(e) => Expression::index(e.base.duplicate(), e.index.duplicate()),
            Expression::Call(e) => {
                let params = duplicate_expressions(&e.params);
                let copy = Expression::call(e.func.duplicate(), params);
                proof {
                    assert(self@->Call_params =~= expression_views(e.params@));
                }
                copy
            },
            Expression::Operator(Operator::ArithmeticLogical(e)) => Expression::Operator(
                Operator::ArithmeticLogical(
                    ArithmeticLogical {
                        lhs: Box::new(e.lhs.duplicate()),
                        op: e.op,
                        rhs: Box::new(e.rhs.duplicate()),
                    },
                ),
            ),
            Expression::Operator(Operator::Comparison(e)) => Expression::Operator(
                Operator::Comparison(
                    Comparison {
                        lhs: Box::new(e.lhs.duplicate()),
                        op: e.op,
                        rhs: Box::new(e.rhs.duplicate()),
                    },
                ),
            ),
            Expression::Operator(Operator::CompoundAssignment(e)) => Expression::Operator(
                Operator::CompoundAssignment(
                    CompoundAssignment {
                        lhs: Box::new(e.lhs.duplicate()),
                        op: e.op,
                        rhs: Box::new(e.rhs.duplicate()),
                    },
                ),
            ),
            Expression::Operator(Operator::Boolean(e)) => Expression::Operator(
                Operator::Boolean(
                    Boolean {
                        lhs: Box::new(e.lhs.duplicate()),
                        op: e.op,
                        rhs: Box::new(e.rhs.duplicate()),
                    },
                ),
            ),
            Expression::Operator(Operator::Negation(e)) => Expression::Operator(
                Operator::Negation(Negation { op: e.op, expr: Box::new(e.expr.duplicate()) }),
            ),
            Expression::Operator(Operator::Assignment(e)) => Expression::Operator(
                Operator::Assignment(
                    Assignment {
                        lhs: Box::new(e.lhs.duplicate()),
                        rhs: Box::new(e.rhs.duplicate()),
                    },
                ),
            ),
            Expression::Operator(Operator::AddressOf(e)) => Expression::Operator(
                Operator::AddressOf(AddressOf { expr: Box::new(e.expr.duplicate()) }),
            ),
            Expression::Operator(Operator::Dereference(e)) => Expression::Operator(
                Operator::Dereference(Dereference { expr: Box::new(e.expr.duplicate()) }),
            ),
        }
    }
}

impl Statement {
    /// Copies the statement with everything below it.
    pub fn duplicate(&self) -> (copy: Self)
        ensures
            copy@ == self@,
        decreases self,
    {
        match self {
            Statement::Item(Item::Function(function)) => Statement::Item(
                Item::Function(function.duplicate()),
            ),
            Statement::Variable { ident, expr, mutable } => Statement::Variable {
                ident: *ident,
                expr: expr.duplicate(),
                mutable: *mutable,
            },
            Statement::Expression(expr) => Statement::Expression(expr.duplicate()),
        }
    }
}

impl Function {
    /// Copies the function with everything below it.
    pub fn duplicate(&self) -> (copy: Self)
        ensures
            copy@ == self@,
        decreases self,
    {
        let mut args: Vec<FunctionArg> = Vec::new();
        let mut i: usize = 0;
        while i < self.args.len()
            invariant
                i <= self.args.len(),
                args@ == self.args@.take(i as int),
            decreases self.args.len() - i,
        {
            args.push(self.args[i]);
            proof {
                assert(args@ =~= self.args@.take(i + 1));
            }
            i += 1;
        }
        proof {
            assert(args@ =~= self.args@);
        }
        let block = duplicate_statements(&self.block);
        let copy = Function { name: self.name, args, ret: self.ret, block };
        proof {
            assert(copy@.block =~= statement_views(block@));
            assert(self@.block =~= statement_views(self.block@));
        }
        copy
    }
}

/// Copies every expression of `exprs`.
fn duplicate_expressions(exprs: &Vec<Expression>) -> (copies: Vec<Expression>)
    ensures
        expression_views(copies@) == expression_views(exprs@),
    decreases exprs,
{
    let mut copies: Vec<Expression> = Vec::new();
    let mut i: usize = 0;
    while i < exprs.len()
        invariant
            i <= exprs.len(),
            copies@.len() == i,
            forall|j: int| 0 <= j < i ==> copies@[j]@ == exprs@[j]@,
        decreases exprs.len() - i,
    {
        let copy = exprs[i].duplicate();
        copies.push(copy);
        i += 1;
    }
    proof {
        assert(expression_views(copies@) =~= expression_views(exprs@));
    }
    copies
}

/// Copies every statement of `stmts`.
fn duplicate_statements(stmts: &Vec<Statement>) -> (copies: Vec<Statement>)
    ensures
        statement_views(copies@) == statement_views(stmts@),
    decreases stmts,
{
    let mut copies: Vec<Statement> = Vec::new();
    let mut i: usize = 0;
    while i < stmts.len()
        invariant
            i <= stmts.len(),
            copies@.len() == i,
            forall|j: int| 0 <= j < i ==> copies@[j]@ == stmts@[j]@,
        decreases stmts.len() - i,
    {
        let copy = stmts[i].duplicate();
        copies.push(copy);
        i += 1;
    }
    proof {
        assert(statement_views(copies@) =~= statement_views(stmts@));
    }
    copies
}

impl Clone for Expression {
    fn clone(&self) -> (copy: Self)
        ensures
            copy@ == self@,
    {
        self.duplicate()
    }
}

impl Clone for Statement {
    fn clone(&self) -> (copy: Self)
        ensures
            copy@ == self@,
    {
        self.duplicate()
    }
}

impl Clone for Function {
    fn clone(&self) -> (copy: Self)
        ensures
            copy@ == self@,
    {
        self.duplicate()
    }
}

impl Clone for Item {
    fn clone(&self) -> (copy: Self)
        ensures
            copy@ == self@,
    {
        match self {
            Item::Function(function) => Item::Function(function.duplicate()),
        }
    }
}

impl Clone for ArithmeticLogical {
    fn clone(&self) -> (copy: Self)
        ensures
            copy.lhs@ == self.lhs@,
            copy.op == self.op,
            copy.rhs@ == self.rhs@,
    {
        ArithmeticLogical {
            lhs: Box::new(self.lhs.duplicate()),
            op: self.op,
            rhs: Box::new(self.rhs.duplicate()),
        }
    }
}

impl Clone for Comparison {
    fn clone(&self) -> (copy: Self)
        ensures
            copy.lhs@ == self.lhs@,
            copy.op == self.op,
            copy.rhs@ == self.rhs@,
    {
        Comparison {
            lhs: Box::new(self.lhs.duplicate()),
            op: self.op,
            rhs: Box::new(self.rhs.duplicate()),
        }
    }
}

impl Clone for CompoundAssignment {
    fn clone(&self) -> (copy: Self)
        ensures
            copy.lhs@ == self.lhs@,
            copy.op == self.op,
            copy.rhs@ == self.rhs@,
    {
        CompoundAssignment {
            lhs: Box::new(self.lhs.duplicate()),
            op: self.op,
            rhs: Box::new(self.rhs.duplicate()),
        }
    }
}

impl Clone for Boolean {
    fn clone(&self) -> (copy: Self)
        ensures
            copy.lhs@ == self.lhs@,
            copy.op == self.op,
            copy.rhs@ == self.rhs@,
    {
        Boolean {
            lhs: Box::new(self.lhs.duplicate()),
            op: self.op,
            rhs: Box::new(self.rhs.duplicate()),
        }
    }
}

impl Clone for Negation {
    fn clone(&self) -> (copy: Self)
        ensures
            copy.op == self.op,
            copy.expr@ == self.expr@,
    {
        Negation { op: self.op, expr: Box::new(self.expr.duplicate()) }
    }
}

impl Clone for Assignment {
    fn clone(&self) -> (copy: Self)
        ensures
            copy.lhs@ == self.lhs@,
            copy.rhs@ == self.rhs@,
    {
        Assignment { lhs: Box::new(self.lhs.duplicate()), rhs: Box::new(self.rhs.duplicate()) }
    }
}

impl Clone for AddressOf {
    fn clone(&self) -> (copy: Self)
        ensures
            copy.expr@ == self.expr@,
    {
        AddressOf { expr: Box::new(self.expr.duplicate()) }
    }
}

impl Clone for Dereference {
    fn clone(&self) -> (copy: Self)
        ensures
            copy.expr@ == self.expr@,
    {
        Dereference { expr: Box::new(self.expr.duplicate()) }
    }
}

impl Clone for Index {
    fn clone(&self) -> (copy: Self)
        ensures
            copy.base@ == self.base@,
            copy.index@ == self.index@,
    {
        Index { base: Box::new(self.base.duplicate()), index: Box::new(self.index.duplicate()) }
    }
}

impl Clone for Call {
    fn clone(&self) -> (copy: Self)
        ensures
            copy.func@ == self.func@,
            expression_views(copy.params@) == expression_views(self.params@),
    {
        Call { func: Box::new(self.func.duplicate()), params: duplicate_expressions(&self.params) }
    }
}

impl Clone for Operator {
    fn clone(&self) -> (copy: Self)
        ensures
            Expression::Operator(copy)@ == Expression::Operator(*self)@,
    {
        match self {
            Operator::ArithmeticLogical(e) => Operator::ArithmeticLogical(e.clone()),
            Operator::Comparison(e) => Operator::Comparison(e.clone()),
            Operator::CompoundAssignment(e) => Operator::CompoundAssignment(e.clone()),
            Operator::Boolean(e) => Operator::Boolean(e.clone()),
            Operator::Negation(e) => Operator::Negation(e.clone()),
            Operator::Assignment(e) => Operator::Assignment(e.clone()),
            Operator::AddressOf(e) => Operator::AddressOf(e.clone()),
            Operator::Dereference(e) => Operator::Dereference(e.clone()),
        }
    }
}

} // verus!
