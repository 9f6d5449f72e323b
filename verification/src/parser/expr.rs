use vstd::prelude::*;
use vstd::string::*;

use super::error::ParseError;
use super::grammar::{
    arguments, climb, expression, infix_power, kind_at, literal, more_arguments, number_value,
    operand,
    postfix_power, prefix_power, Parsed,
};
use super::Parser;
use crate::ast::expr::{is_infix_operator, is_prefix_operator, Expression, Literal};
use crate::ast::view::{expression_views, ExpressionView};
use crate::ast::Ident;
use crate::diagnostic::SourceSpan;
use crate::lexer::stream::all_digits;
use crate::lexer::TokenKind;

verus! {

// The following implements a simple Pratt parsing system.
//
// We handle precedence by assigning binding power to every operator:
// expr:   A + B * C
// power:    1   2
//
// Thus, the expression gets folded as `A + (B * C)` since * has higher
// binding power than +.
//
// To handle associativity on top, we give operators slightly asymmetric
// binding powers on the left and right side:
// expr:   A   +   B   +   C
// power:    1   2   1   2
//
// The expression gets folded as `(A + B) + C` since the first + binds
// the B more tightly than the second one.
//
// Prefix and suffix operators only have right or left binding power,
// respectively.
/// The binding power of the prefix operators `-`, `!`, `~`, `*` and `&`.
pub fn prefix_binding_power(op: TokenKind) -> (power: u8)
    requires
        is_prefix_operator(op),
    ensures
        power == prefix_power(),
{
    23
}

/// The binding power of the postfix operators `[` and `(`.
pub fn postfix_binding_power(op: TokenKind) -> (power: Option<u8>)
    ensures
        power == postfix_power(op),
{
    match op {
        TokenKind::LeftBracket | TokenKind::LeftParen => Some(25),
        _ => None,
    }
}

/// The binding powers of the infix operators: the arithmetic, bitwise,
/// comparison and boolean operators, and the assignments.
pub fn infix_binding_power(op: TokenKind) -> (power: Option<(u8, u8)>)
    ensures
        power == infix_power(op),
        power is Some <==> is_infix_operator(op),
{
    match op {
        TokenKind::Star | TokenKind::Slash | TokenKind::Percent => Some((19, 20)),
        TokenKind::Plus | TokenKind::Minus => Some((17, 18)),
        TokenKind::Shl | TokenKind::Shr => Some((15, 16)),
        TokenKind::And => Some((13, 14)),
        TokenKind::Caret => Some((11, 12)),
        TokenKind::Or => Some((9, 10)),
        TokenKind::EqEq
        | TokenKind::BangEq
        | TokenKind::Lt
        | TokenKind::LtEq
        | TokenKind::Gt
        | TokenKind::GtEq => Some((7, 8)),
        TokenKind::AndAnd => Some((5, 6)),
        TokenKind::OrOr => Some((3, 4)),
        TokenKind::Eq
        | TokenKind::PlusEq
        | TokenKind::MinusEq
        | TokenKind::StarEq
        | TokenKind::SlashEq
        | TokenKind::PercentEq
        | TokenKind::AndEq
        | TokenKind::OrEq
        | TokenKind::CaretEq
        | TokenKind::ShlEq
        | TokenKind::ShrEq => Some((2, 1)),
        _ => None,
    }
}

/// The digits in front of a number write no more than the whole number.
pub proof fn lemma_number_prefix(digits: Seq<u8>, k: int)
    requires
        0 <= k <= digits.len(),
        all_digits(digits),
    ensures
        number_value(digits.take(k)) <= number_value(digits),
    decreases digits.len() - k,
{
    if k == digits.len() {
        assert(digits.take(k) =~= digits);
    } else {
        let shorter = digits.drop_last();
        assert(all_digits(shorter)) by {
            assert forall|i: int| 0 <= i < shorter.len() implies '0' as u8 <= #[trigger] shorter[i]
                <= '9' as u8 by {
                assert(shorter[i] == digits[i]);
            }
        }
        lemma_number_prefix(shorter, k);
        assert(shorter.take(k) =~= digits.take(k));
        assert(digits.last() >= '0' as u8);
    }
}

/// Reads the number that the decimal digits of `src` write.
///
/// A number that does not fit in 64 bits is an error at `at`.
pub fn parse_number(src: &str, at: SourceSpan) -> (r: Result<Expression, ParseError>)
    requires
        all_digits(src.spec_bytes()),
    ensures
        match r {
            Ok(e) => literal(src.spec_bytes(), at) == Ok::<ExpressionView, ParseError>(e@),
            Err(error) => literal(src.spec_bytes(), at) == Err::<ExpressionView, ParseError>(
                error,
            ),
        },
{
    let digits = src.as_bytes();
    let mut value: u64 = 0;
    let mut i: usize = 0;
    proof {
        assert(digits@.take(0) =~= Seq::<u8>::empty());
    }
    while i < digits.len()
        invariant
            i <= digits.len(),
            digits@ == src.spec_bytes(),
            all_digits(digits@),
            value == number_value(digits@.take(i as int)),
        decreases digits.len() - i,
    {
        let digit = (digits[i] - '0' as u8) as u64;
        proof {
            assert(digits@.take(i + 1).drop_last() =~= digits@.take(i as int));
            assert(digits@.take(i + 1).last() == digits@[i as int]);
            lemma_number_prefix(digits@, i + 1);
        }
        let tens = value.checked_mul(10);
        let tens = match tens {
            Some(tens) => tens,
            None => {
                return Err(ParseError::IntegerOverflow { at });
            },
        };
        let sum = tens.checked_add(digit);
        value = match sum {
            Some(sum) => sum,
            None => {
                return Err(ParseError::IntegerOverflow { at });
            },
        };
        i += 1;
    }
    proof {
        assert(digits@.take(i as int) =~= digits@);
    }
    Ok(Expression::Literal(Literal::Integer(value)))
}

/// Whether `r`, with the parser then at token `next`, is what `parsed`
/// says.
pub open spec fn agrees(r: Result<Expression, ParseError>, next: int, parsed: Parsed<ExpressionView>)
    -> bool {
    &&& parsed.next == next
    &&& match r {
        Ok(e) => parsed.result == Ok::<ExpressionView, ParseError>(e@),
        Err(error) => parsed.result == Err::<ExpressionView, ParseError>(error),
    }
}

impl<'src> Parser<'src> {
    /// Parses the expression that starts at the next token.
    pub fn expression(&mut self) -> (r: Result<Expression, ParseError>)
        requires
            old(self).wf(),
        ensures
            final(self).wf(),
            final(self).source() == old(self).source(),
            final(self).tokens() == old(self).tokens(),
            agrees(
                r,
                final(self).position(),
                expression(old(self).source(), old(self).tokens(), old(self).position(), 0),
            ),
            old(self).position() <= final(self).position() < old(self).tokens().len(),
            r is Ok ==> old(self).position() < final(self).position(),
    {
        self.expression_(0)
    }

    /// Parses the expression that starts at the next token, as far as its
    /// operators bind at least as tightly as `mbp` to their left.
    pub(super) fn expression_(&mut self, mbp: u8) -> (r: Result<Expression, ParseError>)
        requires
            old(self).wf(),
        ensures
            final(self).wf(),
            final(self).source() == old(self).source(),
            final(self).tokens() == old(self).tokens(),
            agrees(
                r,
                final(self).position(),
                expression(old(self).source(), old(self).tokens(), old(self).position(), mbp),
            ),
            old(self).position() <= final(self).position() < old(self).tokens().len(),
            r is Ok ==> old(self).position() < final(self).position(),
        decreases old(self).tokens().len() - old(self).position(), 1int,
    {
        let ghost src = self.source();
        let ghost toks = self.tokens();
        let ghost start = self.position();
        proof {
            self.lemma_wf();
        }
        let first = self.operand();
        let mut lhs = match first {
            Ok(lhs) => lhs,
            Err(error) => {
                return Err(error);
            },
        };

        loop
            invariant
                self.wf(),
                self.source() == src,
                self.tokens() == toks,
                src == old(self).source(),
                toks == old(self).tokens(),
                start == old(self).position(),
                0 <= start < self.position() < toks.len(),
                climb(src, toks, self.position(), lhs@, mbp) == expression(src, toks, start, mbp),
            decreases toks.len() - self.position(),
        {
            let op = self.peek();

            let postfix = postfix_binding_power(op);
            if let Some(lbp) = postfix {
                if lbp < mbp {
                    return Ok(lhs);
                }
                self.next();

                if op == TokenKind::LeftParen {
                    let params = self.arguments();
                    let params = match params {
                        Ok(params) => params,
                        Err(error) => {
                            return Err(error);
                        },
                    };
                    lhs = Expression::call(lhs, params);
                } else {
                    let index = self.expression_(0);
                    let index = match index {
                        Ok(index) => index,
                        Err(error) => {
                            return Err(error);
                        },
                    };
                    let close = self.eat(TokenKind::RightBracket);
                    match close {
                        Ok(_) => {},
                        Err(error) => {
                            return Err(error);
                        },
                    }
                    lhs = Expression::index(lhs, index);
                }
                continue ;
            }
            let infix = infix_binding_power(op);
            if let Some((lbp, rbp)) = infix {
                if lbp < mbp {
                    return Ok(lhs);
                }
                self.next();
                let rhs = self.expression_(rbp);
                let rhs = match rhs {
                    Ok(rhs) => rhs,
                    Err(error) => {
                        return Err(error);
                    },
                };

                lhs = Expression::infix_operator(lhs, op, rhs);
                continue ;
            }
            return Ok(lhs);
        }
    }

    /// Parses the operand that starts at the next token: a literal, an
    /// identifier, an expression in parentheses, or a prefix operator with
    /// its operand.
    fn operand(&mut self) -> (r: Result<Expression, ParseError>)
        requires
            old(self).wf(),
        ensures
            final(self).wf(),
            final(self).source() == old(self).source(),
            final(self).tokens() == old(self).tokens(),
            agrees(
                r,
                final(self).position(),
                operand(old(self).source(), old(self).tokens(), old(self).position()),
            ),
            old(self).position() <= final(self).position() < old(self).tokens().len(),
            r is Ok ==> old(self).position() < final(self).position(),
        decreases old(self).tokens().len() - old(self).position(), 0int,
    {
        proof {
            self.lemma_wf();
        }
        let token = self.current();
        let kind = token.kind();
        match kind {
            TokenKind::Number => {
                let text = self.text(token.span());
                let number = parse_number(text, token.span());
                if number.is_ok() {
                    self.next();
                }
                number
            },
            TokenKind::True | TokenKind::False => {
                self.next();
                Ok(Expression::Literal(Literal::Bool(kind == TokenKind::True)))
            },
            TokenKind::Identifier => {
                self.next();
                Ok(Expression::Ident(Ident::from(token)))
            },
            TokenKind::LeftParen => {
                self.next();
                let inner = self.expression_(0);
                let inner = match inner {
                    Ok(inner) => inner,
                    Err(error) => {
                        return Err(error);
                    },
                };
                let close = self.eat(TokenKind::RightParen);
                match close {
                    Ok(_) => Ok(inner),
                    Err(error) => Err(error),
                }
            },
            TokenKind::Minus | TokenKind::Bang | TokenKind::Tilde | TokenKind::Star
            | TokenKind::And => {
                self.next();
                let rbp = prefix_binding_power(kind);
                let rhs = self.expression_(rbp);
                match rhs {
                    Ok(rhs) => Ok(Expression::prefix_operator(kind, rhs)),
                    Err(error) => Err(error),
                }
            },
            _ => Err(ParseError::UnsupportedConstruct { at: token.span() }),
        }
    }

    /// Parses the arguments of a call, behind its `(` and up to its `)`.
    fn arguments(&mut self) -> (r: Result<Vec<Expression>, ParseError>)
        requires
            old(self).wf(),
        ensures
            final(self).wf(),
            final(self).source() == old(self).source(),
            final(self).tokens() == old(self).tokens(),
            ({
                let parsed = arguments(
                    old(self).source(),
                    old(self).tokens(),
                    old(self).position(),
                );
                &&& parsed.next == final(self).position()
                &&& match r {
                    Ok(params) => parsed.result == Ok::<Seq<ExpressionView>, ParseError>(
                        expression_views(params@),
                    ),
                    Err(error) => parsed.result == Err::<Seq<ExpressionView>, ParseError>(error),
                }
            }),
            old(self).position() <= final(self).position() < old(self).tokens().len(),
            r is Ok ==> old(self).position() < final(self).position(),
        decreases old(self).tokens().len() - old(self).position(), 2int,
    {
        let ghost src = self.source();
        let ghost toks = self.tokens();
        let ghost start = self.position();
        proof {
            self.lemma_wf();
        }
        let mut params: Vec<Expression> = Vec::new();
        proof {
            assert(expression_views(params@) =~= Seq::<ExpressionView>::empty());
        }
        if self.at(TokenKind::RightParen) {
            self.next();
            return Ok(params);
        }
        loop
            invariant
                self.wf(),
                self.source() == src,
                self.tokens() == toks,
                src == old(self).source(),
                toks == old(self).tokens(),
                start == old(self).position(),
                0 <= start <= self.position() < toks.len(),
                kind_at(toks, start) != TokenKind::RightParen,
                more_arguments(src, toks, self.position(), expression_views(params@))
                    == more_arguments(src, toks, start, Seq::empty()),
            decreases toks.len() - self.position(),
        {
            let ghost before = expression_views(params@);
            let argument = self.expression_(0);
            let argument = match argument {
                Ok(argument) => argument,
                Err(error) => {
                    return Err(error);
                },
            };
            let ghost view = argument@;
            params.push(argument);
            proof {
                assert(expression_views(params@) =~= before.push(view));
            }
            if self.at(TokenKind::Comma) {
                self.next();
            } else {
                let close = self.eat(TokenKind::RightParen);
                match close {
                    Ok(_) => {
                        return Ok(params);
                    },
                    Err(error) => {
                        return Err(error);
                    },
                }
            }
        }
    }
}

} // verus!
