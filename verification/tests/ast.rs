use serqlane::ast::expr::{
    AddressOf, ArithmeticLogical, ArithmeticLogicalOperator, Assignment, Boolean, BooleanOperator,
    Call, Comparison, ComparisonOperator, CompoundAssignment, CompoundAssignmentOperator,
    Dereference, Expression, Index, Literal, Negation, NegationOperator, Operator,
};
use serqlane::ast::Ident;
use serqlane::diagnostic::SourceSpan;
use serqlane::lexer::{Lexer, TokenKind};

fn one() -> Expression {
    Expression::Literal(Literal::Integer(1))
}

fn two() -> Expression {
    Expression::Literal(Literal::Integer(2))
}

#[test]
fn index_and_call_own_their_children() {
    assert_eq!(
        Expression::index(one(), two()),
        Expression::Index(Index { base: Box::new(one()), index: Box::new(two()) })
    );
    assert_eq!(
        Expression::call(one(), vec![two(), one()]),
        Expression::Call(Call { func: Box::new(one()), params: vec![two(), one()] })
    );
}

#[test]
fn prefix_operator_picks_the_variant() {
    let table = [
        (TokenKind::Minus, NegationOperator::Negation),
        (TokenKind::Bang, NegationOperator::LogicalNot),
        (TokenKind::Tilde, NegationOperator::BitwiseNot),
    ];
    for (token, op) in table {
        assert_eq!(
            Expression::prefix_operator(token, one()),
            Expression::Operator(Operator::Negation(Negation { op, expr: Box::new(one()) }))
        );
    }
    assert_eq!(
        Expression::prefix_operator(TokenKind::And, one()),
        Expression::Operator(Operator::AddressOf(AddressOf { expr: Box::new(one()) }))
    );
    assert_eq!(
        Expression::prefix_operator(TokenKind::Star, one()),
        Expression::Operator(Operator::Dereference(Dereference { expr: Box::new(one()) }))
    );
}

#[test]
fn infix_operator_picks_the_variant() {
    let arithmetic = [
        (TokenKind::Plus, ArithmeticLogicalOperator::Plus),
        (TokenKind::Minus, ArithmeticLogicalOperator::Minus),
        (TokenKind::Star, ArithmeticLogicalOperator::Multiply),
        (TokenKind::Slash, ArithmeticLogicalOperator::Divide),
        (TokenKind::Percent, ArithmeticLogicalOperator::Modulo),
        (TokenKind::And, ArithmeticLogicalOperator::And),
        (TokenKind::Or, ArithmeticLogicalOperator::Or),
        (TokenKind::Caret, ArithmeticLogicalOperator::Xor),
        (TokenKind::Shl, ArithmeticLogicalOperator::Shl),
        (TokenKind::Shr, ArithmeticLogicalOperator::Shr),
    ];
    for (token, op) in arithmetic {
        assert_eq!(
            Expression::infix_operator(one(), token, two()),
            Expression::Operator(Operator::ArithmeticLogical(ArithmeticLogical {
                lhs: Box::new(one()),
                op,
                rhs: Box::new(two())
            }))
        );
    }
    let comparison = [
        (TokenKind::EqEq, ComparisonOperator::Eq),
        (TokenKind::BangEq, ComparisonOperator::NotEq),
        (TokenKind::Lt, ComparisonOperator::Lt),
        (TokenKind::LtEq, ComparisonOperator::LtEq),
        (TokenKind::Gt, ComparisonOperator::Gt),
        (TokenKind::GtEq, ComparisonOperator::GtEq),
    ];
    for (token, op) in comparison {
        assert_eq!(
            Expression::infix_operator(one(), token, two()),
            Expression::Operator(Operator::Comparison(Comparison {
                lhs: Box::new(one()),
                op,
                rhs: Box::new(two())
            }))
        );
    }
    let compound = [
        (TokenKind::PlusEq, CompoundAssignmentOperator::Plus),
        (TokenKind::MinusEq, CompoundAssignmentOperator::Minus),
        (TokenKind::StarEq, CompoundAssignmentOperator::Multiply),
        (TokenKind::SlashEq, CompoundAssignmentOperator::Divide),
        (TokenKind::PercentEq, CompoundAssignmentOperator::Modulo),
        (TokenKind::AndEq, CompoundAssignmentOperator::And),
        (TokenKind::OrEq, CompoundAssignmentOperator::Or),
        (TokenKind::CaretEq, CompoundAssignmentOperator::Xor),
        (TokenKind::ShlEq, CompoundAssignmentOperator::Shl),
        (TokenKind::ShrEq, CompoundAssignmentOperator::Shr),
    ];
    for (token, op) in compound {
        assert_eq!(
            Expression::infix_operator(one(), token, two()),
            Expression::Operator(Operator::CompoundAssignment(CompoundAssignment {
                lhs: Box::new(one()),
                op,
                rhs: Box::new(two())
            }))
        );
    }
    let boolean = [
        (TokenKind::AndAnd, BooleanOperator::And),
        (TokenKind::OrOr, BooleanOperator::Or),
    ];
    for (token, op) in boolean {
        assert_eq!(
            Expression::infix_operator(one(), token, two()),
            Expression::Operator(Operator::Boolean(Boolean {
                lhs: Box::new(one()),
                op,
                rhs: Box::new(two())
            }))
        );
    }
    assert_eq!(
        Expression::infix_operator(one(), TokenKind::Eq, two()),
        Expression::Operator(Operator::Assignment(Assignment {
            lhs: Box::new(one()),
            rhs: Box::new(two())
        }))
    );
}

#[test]
fn operators_of_other_tokens() {
    assert_eq!(ArithmeticLogicalOperator::from_token(TokenKind::PlusEq), None);
    assert_eq!(ComparisonOperator::from_token(TokenKind::Eq), None);
    assert_eq!(CompoundAssignmentOperator::from_token(TokenKind::Plus), None);
    assert_eq!(BooleanOperator::from_token(TokenKind::And), None);
    assert_eq!(NegationOperator::from_token(TokenKind::Star), None);
}

#[test]
fn ident_from_token() {
    let mut lexer = Lexer::new("  name").unwrap();
    let token = lexer.next().unwrap();
    assert_eq!(token.kind(), TokenKind::Identifier);
    assert_eq!(Ident::from(token), Ident { span: SourceSpan::new(2, 6) });
}
