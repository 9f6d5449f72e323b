use serqlane::ast::expr::{Expression, Literal};
use serqlane::ast::stmt::{Function, FunctionArg, Statement};
use serqlane::ast::{Ident, Item};
use serqlane::diagnostic::SourceSpan;
use serqlane::lexer::TokenKind;
use serqlane::parser::{
    infix_binding_power, parse_number, postfix_binding_power, prefix_binding_power, ParseError,
    Parser,
};

fn expr(source: &str) -> Result<Expression, ParseError> {
    Parser::new(source).unwrap().expression()
}

fn program(source: &str) -> Result<Vec<Item>, Vec<ParseError>> {
    Parser::new(source).unwrap().parse()
}

fn num(value: u64) -> Expression {
    Expression::Literal(Literal::Integer(value))
}

fn name(start: u32, end: u32) -> Ident {
    Ident { span: SourceSpan::new(start, end) }
}

fn var(start: u32, end: u32) -> Expression {
    Expression::Ident(name(start, end))
}

fn infix(lhs: Expression, op: TokenKind, rhs: Expression) -> Expression {
    Expression::infix_operator(lhs, op, rhs)
}

#[test]
fn multiplication_binds_tighter_than_addition() {
    assert_eq!(
        expr("1+2*3"),
        Ok(infix(num(1), TokenKind::Plus, infix(num(2), TokenKind::Star, num(3))))
    );
    assert_eq!(
        expr("1*2+3"),
        Ok(infix(infix(num(1), TokenKind::Star, num(2)), TokenKind::Plus, num(3)))
    );
}

#[test]
fn addition_associates_to_the_left() {
    assert_eq!(
        expr("1+2+3"),
        Ok(infix(infix(num(1), TokenKind::Plus, num(2)), TokenKind::Plus, num(3)))
    );
}

#[test]
fn assignment_associates_to_the_right() {
    assert_eq!(
        expr("a=b=c"),
        Ok(infix(
            var(0, 1),
            TokenKind::Eq,
            infix(var(2, 3), TokenKind::Eq, var(4, 5))
        ))
    );
    assert_eq!(
        expr("a+=b=c"),
        Ok(infix(
            var(0, 1),
            TokenKind::PlusEq,
            infix(var(3, 4), TokenKind::Eq, var(5, 6))
        ))
    );
}

#[test]
fn postfix_operators_compose() {
    assert_eq!(
        expr("f(1,2)[0]"),
        Ok(Expression::index(
            Expression::call(var(0, 1), vec![num(1), num(2)]),
            num(0)
        ))
    );
}

#[test]
fn precedence_ladder() {
    // Each operator binds tighter than the one before it.
    assert_eq!(
        expr("1||2&&3==4|5^6&7<<8+9*10"),
        Ok(infix(
            num(1),
            TokenKind::OrOr,
            infix(
                num(2),
                TokenKind::AndAnd,
                infix(
                    num(3),
                    TokenKind::EqEq,
                    infix(
                        num(4),
                        TokenKind::Or,
                        infix(
                            num(5),
                            TokenKind::Caret,
                            infix(
                                num(6),
                                TokenKind::And,
                                infix(
                                    num(7),
                                    TokenKind::Shl,
                                    infix(
                                        num(8),
                                        TokenKind::Plus,
                                        infix(num(9), TokenKind::Star, num(10))
                                    )
                                )
                            )
                        )
                    )
                )
            )
        ))
    );
}

#[test]
fn prefix_operators() {
    assert_eq!(
        expr("-1+2"),
        Ok(infix(
            Expression::prefix_operator(TokenKind::Minus, num(1)),
            TokenKind::Plus,
            num(2)
        ))
    );
    assert_eq!(
        expr("!~*&a"),
        Ok(Expression::prefix_operator(
            TokenKind::Bang,
            Expression::prefix_operator(
                TokenKind::Tilde,
                Expression::prefix_operator(
                    TokenKind::Star,
                    Expression::prefix_operator(TokenKind::And, var(4, 5))
                )
            )
        ))
    );
    // Postfix operators bind tighter than prefix operators.
    assert_eq!(
        expr("-a[0]"),
        Ok(Expression::prefix_operator(
            TokenKind::Minus,
            Expression::index(var(1, 2), num(0))
        ))
    );
}

#[test]
fn parentheses_and_literals() {
    assert_eq!(
        expr("(1+2)*3"),
        Ok(infix(infix(num(1), TokenKind::Plus, num(2)), TokenKind::Star, num(3)))
    );
    assert_eq!(expr("true"), Ok(Expression::Literal(Literal::Bool(true))));
    assert_eq!(expr("false"), Ok(Expression::Literal(Literal::Bool(false))));
    assert_eq!(expr("0"), Ok(num(0)));
    assert_eq!(expr("007"), Ok(num(7)));
}

#[test]
fn calls() {
    assert_eq!(expr("f()"), Ok(Expression::call(var(0, 1), vec![])));
    assert_eq!(
        expr("f(a)(b)"),
        Ok(Expression::call(
            Expression::call(var(0, 1), vec![var(2, 3)]),
            vec![var(5, 6)]
        ))
    );
    assert_eq!(
        expr("f(1+2, g(3))"),
        Ok(Expression::call(
            var(0, 1),
            vec![
                infix(num(1), TokenKind::Plus, num(2)),
                Expression::call(var(7, 8), vec![num(3)])
            ]
        ))
    );
}

#[test]
fn trailing_comma_in_call_is_refused() {
    assert_eq!(
        expr("f(1,)"),
        Err(ParseError::UnsupportedConstruct { at: SourceSpan::new(4, 5) })
    );
    assert_eq!(
        expr("f(1 2)"),
        Err(ParseError::UnexpectedToken {
            expected: TokenKind::RightParen,
            actual: TokenKind::Number,
            at: SourceSpan::new(4, 5)
        })
    );
}

#[test]
fn largest_integer_is_accepted() {
    assert_eq!(expr("18446744073709551615"), Ok(num(u64::MAX)));
    assert_eq!(
        expr("00000000000000000000018446744073709551615"),
        Ok(num(u64::MAX))
    );
}

#[test]
fn integer_overflow_is_an_error() {
    assert_eq!(
        expr("18446744073709551616"),
        Err(ParseError::IntegerOverflow { at: SourceSpan::new(0, 20) })
    );
    assert_eq!(
        expr("1+99999999999999999999999"),
        Err(ParseError::IntegerOverflow { at: SourceSpan::new(2, 25) })
    );
    assert_eq!(
        expr("184467440737095516150"),
        Err(ParseError::IntegerOverflow { at: SourceSpan::new(0, 21) })
    );
}

#[test]
fn unsupported_primaries() {
    assert_eq!(
        expr("\"text\""),
        Err(ParseError::UnsupportedConstruct { at: SourceSpan::new(0, 6) })
    );
    assert_eq!(
        expr("1 + while"),
        Err(ParseError::UnsupportedConstruct { at: SourceSpan::new(4, 9) })
    );
    assert_eq!(
        expr(""),
        Err(ParseError::UnsupportedConstruct { at: SourceSpan::new(0, 0) })
    );
    assert_eq!(
        expr("$"),
        Err(ParseError::UnsupportedConstruct { at: SourceSpan::new(0, 1) })
    );
}

#[test]
fn missing_delimiters() {
    assert_eq!(
        expr("(1+2"),
        Err(ParseError::UnexpectedToken {
            expected: TokenKind::RightParen,
            actual: TokenKind::Semicolon,
            at: SourceSpan::new(4, 4)
        })
    );
    assert_eq!(
        expr("a[1)"),
        Err(ParseError::UnexpectedToken {
            expected: TokenKind::RightBracket,
            actual: TokenKind::RightParen,
            at: SourceSpan::new(3, 4)
        })
    );
}

#[test]
fn expression_stops_at_what_is_no_operator() {
    let mut parser = Parser::new("1 + 2 3").unwrap();
    assert_eq!(
        parser.expression(),
        Ok(infix(num(1), TokenKind::Plus, num(2)))
    );
    assert_eq!(parser.expression(), Ok(num(3)));
}

#[test]
fn end_to_end() {
    let source = "fn add(a: i32, b: i32): i32 { a + b }";
    let items = program(source).unwrap();
    assert_eq!(
        items,
        vec![Item::Function(Function {
            name: name(3, 6),
            args: vec![
                FunctionArg { name: name(7, 8), typ: name(10, 13) },
                FunctionArg { name: name(15, 16), typ: name(18, 21) },
            ],
            ret: Some(name(24, 27)),
            block: vec![Statement::Expression(infix(
                var(30, 31),
                TokenKind::Plus,
                var(34, 35)
            ))],
        })]
    );
    let Item::Function(function) = &items[0];
    assert_eq!(function.name.span.text(source), Some("add"));
    assert_eq!(function.args[0].name.span.text(source), Some("a"));
    assert_eq!(function.args[0].typ.span.text(source), Some("i32"));
    assert_eq!(function.args[1].name.span.text(source), Some("b"));
    assert_eq!(function.args[1].typ.span.text(source), Some("i32"));
    assert_eq!(function.ret.unwrap().span.text(source), Some("i32"));
}

#[test]
fn statements_and_nested_functions() {
    let source = "fn main() {\n  let x = 1\n  mut y = x + 2;\n  fn inner(a: t,) {}\n  y = 3\n}\n";
    let items = program(source).unwrap();
    assert_eq!(
        items,
        vec![Item::Function(Function {
            name: name(3, 7),
            args: vec![],
            ret: None,
            block: vec![
                Statement::Variable { ident: name(18, 19), expr: num(1), mutable: false },
                Statement::Variable {
                    ident: name(30, 31),
                    expr: infix(var(34, 35), TokenKind::Plus, num(2)),
                    mutable: true
                },
                Statement::Item(Item::Function(Function {
                    name: name(46, 51),
                    args: vec![FunctionArg { name: name(52, 53), typ: name(55, 56) }],
                    ret: None,
                    block: vec![],
                })),
                Statement::Expression(infix(var(64, 65), TokenKind::Eq, num(3))),
            ],
        })]
    );
}

#[test]
fn several_items() {
    let items = program("fn a() {}\nfn b() {}\n").unwrap();
    assert_eq!(items.len(), 2);
    assert_eq!(program(""), Ok(vec![]));
    assert_eq!(program("  // nothing\n"), Ok(vec![]));
}

#[test]
fn item_needs_a_semicolon() {
    assert_eq!(
        program("fn a() {} fn b() {}"),
        Err(vec![ParseError::UnexpectedToken {
            expected: TokenKind::Semicolon,
            actual: TokenKind::Fn,
            at: SourceSpan::new(10, 12)
        }])
    );
}

#[test]
fn top_level_must_be_a_function() {
    assert_eq!(
        program("let x = 1\nfn f() {}\n"),
        Err(vec![ParseError::UnexpectedToken {
            expected: TokenKind::Fn,
            actual: TokenKind::Let,
            at: SourceSpan::new(0, 3)
        }])
    );
}

#[test]
fn errors_are_accumulated() {
    let source = "fn f() {\n  let = 1\n  x = (2\n  y = 3\n}\nfn (a) {}\nfn g() { 99999999999999999999 }\n";
    assert_eq!(
        program(source),
        Err(vec![
            ParseError::UnexpectedToken {
                expected: TokenKind::Identifier,
                actual: TokenKind::Eq,
                at: SourceSpan::new(15, 16)
            },
            ParseError::UnexpectedToken {
                expected: TokenKind::RightParen,
                actual: TokenKind::Semicolon,
                at: SourceSpan::new(27, 27)
            },
            ParseError::UnexpectedToken {
                expected: TokenKind::Identifier,
                actual: TokenKind::LeftParen,
                at: SourceSpan::new(41, 42)
            },
            ParseError::IntegerOverflow { at: SourceSpan::new(57, 77) },
        ])
    );
}

#[test]
fn block_cut_short_by_the_end_of_input() {
    assert_eq!(
        program("fn f() { 1"),
        Err(vec![
            ParseError::UnexpectedToken {
                expected: TokenKind::RightBrace,
                actual: TokenKind::Eof,
                at: SourceSpan::new(10, 10)
            },
            ParseError::UnexpectedToken {
                expected: TokenKind::Semicolon,
                actual: TokenKind::Eof,
                at: SourceSpan::new(10, 10)
            },
        ])
    );
}

#[test]
fn malformed_headers() {
    assert_eq!(
        program("fn f(a b) {}\n"),
        Err(vec![ParseError::UnexpectedToken {
            expected: TokenKind::Colon,
            actual: TokenKind::Identifier,
            at: SourceSpan::new(7, 8)
        }])
    );
    assert_eq!(
        program("fn f(a: b c: d) {}\n"),
        Err(vec![ParseError::UnexpectedToken {
            expected: TokenKind::Comma,
            actual: TokenKind::Identifier,
            at: SourceSpan::new(10, 11)
        }])
    );
    assert_eq!(
        program("fn f(): {}\n"),
        Err(vec![ParseError::UnexpectedToken {
            expected: TokenKind::Identifier,
            actual: TokenKind::LeftBrace,
            at: SourceSpan::new(8, 9)
        }])
    );
    assert_eq!(
        program("fn f()\n"),
        Err(vec![ParseError::UnexpectedToken {
            expected: TokenKind::LeftBrace,
            actual: TokenKind::Semicolon,
            at: SourceSpan::new(6, 6)
        }])
    );
}

#[test]
fn lexical_errors_reach_the_parser() {
    assert_eq!(
        program("fn f() { $ }\n"),
        Err(vec![ParseError::UnsupportedConstruct { at: SourceSpan::new(9, 10) }])
    );
}

#[test]
fn error_spans() {
    let error = ParseError::IntegerOverflow { at: SourceSpan::new(1, 2) };
    assert_eq!(error.span(), SourceSpan::new(1, 2));
    let error = ParseError::UnexpectedToken {
        expected: TokenKind::Fn,
        actual: TokenKind::Eof,
        at: SourceSpan::new(3, 3),
    };
    assert_eq!(error.span(), SourceSpan::new(3, 3));
}

#[test]
fn binding_powers() {
    for op in [
        TokenKind::Minus,
        TokenKind::Bang,
        TokenKind::Tilde,
        TokenKind::Star,
        TokenKind::And,
    ] {
        assert_eq!(prefix_binding_power(op), 23);
    }
    assert_eq!(postfix_binding_power(TokenKind::LeftParen), Some(25));
    assert_eq!(postfix_binding_power(TokenKind::LeftBracket), Some(25));
    assert_eq!(postfix_binding_power(TokenKind::RightParen), None);
    assert_eq!(postfix_binding_power(TokenKind::Plus), None);

    assert_eq!(infix_binding_power(TokenKind::Star), Some((19, 20)));
    assert_eq!(infix_binding_power(TokenKind::Slash), Some((19, 20)));
    assert_eq!(infix_binding_power(TokenKind::Percent), Some((19, 20)));
    assert_eq!(infix_binding_power(TokenKind::Plus), Some((17, 18)));
    assert_eq!(infix_binding_power(TokenKind::Minus), Some((17, 18)));
    assert_eq!(infix_binding_power(TokenKind::Shl), Some((15, 16)));
    assert_eq!(infix_binding_power(TokenKind::Shr), Some((15, 16)));
    assert_eq!(infix_binding_power(TokenKind::And), Some((13, 14)));
    assert_eq!(infix_binding_power(TokenKind::Caret), Some((11, 12)));
    assert_eq!(infix_binding_power(TokenKind::Or), Some((9, 10)));
    for op in [
        TokenKind::EqEq,
        TokenKind::BangEq,
        TokenKind::Lt,
        TokenKind::LtEq,
        TokenKind::Gt,
        TokenKind::GtEq,
    ] {
        assert_eq!(infix_binding_power(op), Some((7, 8)));
    }
    assert_eq!(infix_binding_power(TokenKind::AndAnd), Some((5, 6)));
    assert_eq!(infix_binding_power(TokenKind::OrOr), Some((3, 4)));
    for op in [
        TokenKind::Eq,
        TokenKind::PlusEq,
        TokenKind::MinusEq,
        TokenKind::StarEq,
        TokenKind::SlashEq,
        TokenKind::PercentEq,
        TokenKind::AndEq,
        TokenKind::OrEq,
        TokenKind::CaretEq,
        TokenKind::ShlEq,
        TokenKind::ShrEq,
    ] {
        assert_eq!(infix_binding_power(op), Some((2, 1)));
    }
    for op in [
        TokenKind::Bang,
        TokenKind::Tilde,
        TokenKind::Comma,
        TokenKind::Semicolon,
        TokenKind::PlusPlus,
        TokenKind::Dot,
        TokenKind::Eof,
    ] {
        assert_eq!(infix_binding_power(op), None);
    }
}

#[test]
fn numbers_are_read_digit_by_digit() {
    let at = SourceSpan::new(0, 1);
    assert_eq!(parse_number("0", at), Ok(num(0)));
    assert_eq!(parse_number("1234567890", at), Ok(num(1234567890)));
    assert_eq!(parse_number("18446744073709551615", at), Ok(num(u64::MAX)));
    assert_eq!(
        parse_number("18446744073709551616", at),
        Err(ParseError::IntegerOverflow { at })
    );
    assert_eq!(
        parse_number("18446744073709551620", at),
        Err(ParseError::IntegerOverflow { at })
    );
    assert_eq!(
        parse_number("100000000000000000000", at),
        Err(ParseError::IntegerOverflow { at })
    );
}

#[test]
fn comparison_and_boolean_operators() {
    assert_eq!(
        expr("a<b&&c>=d||e!=f"),
        Ok(infix(
            infix(
                infix(var(0, 1), TokenKind::Lt, var(2, 3)),
                TokenKind::AndAnd,
                infix(var(5, 6), TokenKind::GtEq, var(8, 9))
            ),
            TokenKind::OrOr,
            infix(var(11, 12), TokenKind::BangEq, var(14, 15))
        ))
    );
}

#[test]
fn index_binds_tighter_than_infix() {
    assert_eq!(
        expr("a+b[1]*c(2)"),
        Ok(infix(
            var(0, 1),
            TokenKind::Plus,
            infix(
                Expression::index(var(2, 3), num(1)),
                TokenKind::Star,
                Expression::call(var(7, 8), vec![num(2)])
            )
        ))
    );
}

#[test]
fn trees_are_copied_whole() {
    let source = "fn f(a: t): t { let x = g(a, 1)[0]\n fn h() { -x }\n x += !true }";
    let items = program(source).unwrap();
    let copies = items.clone();
    assert_eq!(copies, items);
    let Item::Function(function) = &items[0];
    assert_eq!(function.duplicate(), *function);
    for statement in &function.block {
        assert_eq!(statement.duplicate(), *statement);
        if let Statement::Variable { expr, .. } = statement {
            assert_eq!(expr.duplicate(), *expr);
            assert_eq!(expr.clone(), *expr);
        }
    }
    let block = Expression::Block { stmts: vec![Statement::Expression(num(1))] };
    assert_eq!(block.duplicate(), block);
}

#[test]
fn parser_can_be_copied() {
    let mut parser = Parser::new("1 + 2").unwrap();
    let mut copy = parser.clone();
    assert_eq!(parser.expression(), copy.expression());
}
