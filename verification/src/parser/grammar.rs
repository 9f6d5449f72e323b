//! The grammar of Serqlane, as a function from tokens to syntax trees.
//!
//! Everything here is ghost code. A function of this file takes the
//! bytes of the source, its tokens and the index of the token to start at,
//! and gives what is parsed from there together with the index of the
//! first token behind it. After an error that index is the token at which
//! parsing stopped.

use vstd::prelude::*;

use crate::ast::expr::{is_prefix_operator, Literal};
use crate::ast::stmt::FunctionArg;
use crate::ast::view::{ExpressionView, FunctionView, ItemView, StatementView};
use crate::ast::Ident;
use crate::diagnostic::SourceSpan;
use crate::lexer::{Token, TokenKind};
use super::error::ParseError;

verus! {

/// What parsing gave, and the index of the token at which it ended.
pub struct Parsed<T> {
    pub result: Result<T, ParseError>,
    pub next: int,
}

/// What parsing gave of a construct that may hold blocks: its result, the
/// index of the token at which it ended, and the errors that were found
/// and recovered from inside its blocks.
pub struct Recovered<T> {
    pub result: Result<T, ParseError>,
    pub next: int,
    pub errors: Seq<ParseError>,
}

/// The statements of a block, the index of the token behind it, and the
/// errors that were found and recovered from inside it.
pub struct BlockParse {
    pub stmts: Seq<StatementView>,
    pub next: int,
    pub errors: Seq<ParseError>,
}

/// The items of a program and the errors that were found in it.
pub struct ProgramParse {
    pub items: Seq<ItemView>,
    pub errors: Seq<ParseError>,
}

/// The kind of the token at index `i`. The last token counts as the end of
/// input, whatever it is, and so does everything behind it.
pub open spec fn kind_at(toks: Seq<Token>, i: int) -> TokenKind {
    if 0 <= i < toks.len() - 1 {
        toks[i].kind
    } else {
        TokenKind::Eof
    }
}

/// The span of the token at index `i`.
pub open spec fn span_at(toks: Seq<Token>, i: int) -> SourceSpan {
    toks[i].span
}

/// The error for a token of another kind than `expected` at index `i`.
pub open spec fn unexpected(toks: Seq<Token>, i: int, expected: TokenKind) -> ParseError {
    ParseError::UnexpectedToken { expected, actual: kind_at(toks, i), at: span_at(toks, i) }
}

/// Consumes a token of the given kind.
pub open spec fn expect(toks: Seq<Token>, i: int, kind: TokenKind) -> Parsed<()> {
    if kind_at(toks, i) == kind {
        Parsed { result: Ok(()), next: i + 1 }
    } else {
        Parsed { result: Err(unexpected(toks, i, kind)), next: i }
    }
}

/// Consumes an identifier.
pub open spec fn ident(toks: Seq<Token>, i: int) -> Parsed<Ident> {
    if kind_at(toks, i) == TokenKind::Identifier {
        Parsed { result: Ok(Ident { span: span_at(toks, i) }), next: i + 1 }
    } else {
        Parsed { result: Err(unexpected(toks, i, TokenKind::Identifier)), next: i }
    }
}

/// The number that the decimal digits `digits` write.
pub open spec fn number_value(digits: Seq<u8>) -> nat
    decreases digits.len(),
{
    if digits.len() == 0 {
        0
    } else {
        number_value(digits.drop_last()) * 10 + (digits.last() - '0' as u8) as nat
    }
}

/// The literal that the decimal digits `digits` write, where it fits in 64
/// bits; an overflow at `at` where it does not.
pub open spec fn literal(digits: Seq<u8>, at: SourceSpan) -> Result<ExpressionView, ParseError> {
    let value = number_value(digits);
    if value <= u64::MAX {
        Ok(ExpressionView::Literal(Literal::Integer(value as u64)))
    } else {
        Err(ParseError::IntegerOverflow { at })
    }
}

/// The literal that the number token at `at` writes.
pub open spec fn number(src: Seq<u8>, at: SourceSpan) -> Result<ExpressionView, ParseError> {
    literal(at.bytes_of(src), at)
}

/// The binding power of the prefix operators to their right.
pub open spec fn prefix_power() -> u8 {
    23
}

/// The binding power of the postfix operators `(` and `[` to their left.
pub open spec fn postfix_power(op: TokenKind) -> Option<u8> {
    if op == TokenKind::LeftBracket || op == TokenKind::LeftParen {
        Some(25u8)
    } else {
        None
    }
}

/// The binding powers of the infix operators to their left and right.
///
/// A higher power binds more tightly. An operator that associates to the
/// left binds more tightly to its right, one that associates to the right
/// more tightly to its left.
pub open spec fn infix_power(op: TokenKind) -> Option<(u8, u8)> {
    match op {
        TokenKind::Star | TokenKind::Slash | TokenKind::Percent => Some((19u8, 20u8)),
        TokenKind::Plus | TokenKind::Minus => Some((17u8, 18u8)),
        TokenKind::Shl | TokenKind::Shr => Some((15u8, 16u8)),
        TokenKind::And => Some((13u8, 14u8)),
        TokenKind::Caret => Some((11u8, 12u8)),
        TokenKind::Or => Some((9u8, 10u8)),
        TokenKind::EqEq | TokenKind::BangEq | TokenKind::Lt | TokenKind::LtEq | TokenKind::Gt
        | TokenKind::GtEq => Some((7u8, 8u8)),
        TokenKind::AndAnd => Some((5u8, 6u8)),
        TokenKind::OrOr => Some((3u8, 4u8)),
        TokenKind::Eq | TokenKind::PlusEq | TokenKind::MinusEq | TokenKind::StarEq
        | TokenKind::SlashEq | TokenKind::PercentEq | TokenKind::AndEq | TokenKind::OrEq
        | TokenKind::CaretEq | TokenKind::ShlEq | TokenKind::ShrEq => Some((2u8, 1u8)),
        _ => None,
    }
}

/// The expression that starts at token `i`, made of operators that bind
/// at least as tightly as `mbp` to their left.
pub open spec fn expression(src: Seq<u8>, toks: Seq<Token>, i: int, mbp: u8) -> Parsed<
    ExpressionView,
>
    decreases toks.len() - i, 2int,
{
    let lhs = operand(src, toks, i);
    match lhs.result {
        Ok(e) if i < lhs.next <= toks.len() => climb(src, toks, lhs.next, e, mbp),
        _ => lhs,
    }
}

/// The operand that starts at token `i`: a literal, an identifier, an
/// expression in parentheses, or a prefix operator with its operand.
pub open spec fn operand(src: Seq<u8>, toks: Seq<Token>, i: int) -> Parsed<ExpressionView>
    decreases toks.len() - i, 0int,
{
    let kind = kind_at(toks, i);
    if kind == TokenKind::Number {
        match number(src, span_at(toks, i)) {
            Ok(e) => Parsed { result: Ok(e), next: i + 1 },
            Err(error) => Parsed { result: Err(error), next: i },
        }
    } else if kind == TokenKind::True || kind == TokenKind::False {
        Parsed {
            result: Ok(ExpressionView::Literal(Literal::Bool(kind == TokenKind::True))),
            next: i + 1,
        }
    } else if kind == TokenKind::Identifier {
        Parsed { result: Ok(ExpressionView::Ident(Ident { span: span_at(toks, i) })), next: i + 1 }
    } else if kind == TokenKind::LeftParen {
        let inner = expression(src, toks, i + 1, 0);
        match inner.result {
            Ok(e) => {
                let close = expect(toks, inner.next, TokenKind::RightParen);
                match close.result {
                    Ok(_) => Parsed { result: Ok(e), next: close.next },
                    Err(error) => Parsed { result: Err(error), next: close.next },
                }
            },
            Err(_) => inner,
        }
    } else if is_prefix_operator(kind) {
        let rhs = expression(src, toks, i + 1, prefix_power());
        match rhs.result {
            Ok(e) => Parsed { result: Ok(ExpressionView::prefix(kind, e)), next: rhs.next },
            Err(_) => rhs,
        }
    } else {
        Parsed { result: Err(ParseError::UnsupportedConstruct { at: span_at(toks, i) }), next: i }
    }
}

/// The expression that the operators from token `i` on make of the operand
/// `lhs` to their left, as far as they bind at least as tightly as `mbp`.
pub open spec fn climb(src: Seq<u8>, toks: Seq<Token>, i: int, lhs: ExpressionView, mbp: u8)
    -> Parsed<ExpressionView>
    decreases toks.len() - i, 1int,
{
    let op = kind_at(toks, i);
    let done = Parsed { result: Ok(lhs), next: i };
    if let Some(lbp) = postfix_power(op) {
        if lbp < mbp {
            done
        } else if op == TokenKind::LeftParen {
            let args = arguments(src, toks, i + 1);
            match args.result {
                Ok(params) if i < args.next <= toks.len() => climb(
                    src,
                    toks,
                    args.next,
                    ExpressionView::Call { func: Box::new(lhs), params },
                    mbp,
                ),
                Ok(_) => done,
                Err(error) => Parsed { result: Err(error), next: args.next },
            }
        } else {
            let index = expression(src, toks, i + 1, 0);
            match index.result {
                Ok(e) => {
                    let close = expect(toks, index.next, TokenKind::RightBracket);
                    match close.result {
                        Ok(_) if i < close.next <= toks.len() => climb(
                            src,
                            toks,
                            close.next,
                            ExpressionView::Index { base: Box::new(lhs), index: Box::new(e) },
                            mbp,
                        ),
                        Ok(_) => done,
                        Err(error) => Parsed { result: Err(error), next: close.next },
                    }
                },
                Err(_) => index,
            }
        }
    } else if let Some((lbp, rbp)) = infix_power(op) {
        if lbp < mbp {
            done
        } else {
            let rhs = expression(src, toks, i + 1, rbp);
            match rhs.result {
                Ok(e) if i < rhs.next <= toks.len() => climb(
                    src,
                    toks,
                    rhs.next,
                    ExpressionView::infix(lhs, op, e),
                    mbp,
                ),
                _ => rhs,
            }
        }
    } else {
        done
    }
}

/// The arguments of a call, behind its `(` and up to its `)`: expressions
/// with a comma between each two of them.
pub open spec fn arguments(src: Seq<u8>, toks: Seq<Token>, i: int) -> Parsed<Seq<ExpressionView>>
    decreases toks.len() - i, 4int,
{
    if kind_at(toks, i) == TokenKind::RightParen {
        Parsed { result: Ok(Seq::empty()), next: i + 1 }
    } else {
        more_arguments(src, toks, i, Seq::empty())
    }
}

/// The arguments of a call from token `i` on, where an argument starts,
/// behind the arguments `before`.
pub open spec fn more_arguments(
    src: Seq<u8>,
    toks: Seq<Token>,
    i: int,
    before: Seq<ExpressionView>,
) -> Parsed<Seq<ExpressionView>>
    decreases toks.len() - i, 3int,
{
    let argument = expression(src, toks, i, 0);
    match argument.result {
        Ok(e) => {
            let params = before.push(e);
            if kind_at(toks, argument.next) == TokenKind::Comma && i <= argument.next {
                more_arguments(src, toks, argument.next + 1, params)
            } else {
                let close = expect(toks, argument.next, TokenKind::RightParen);
                match close.result {
                    Ok(_) => Parsed { result: Ok(params), next: close.next },
                    Err(error) => Parsed { result: Err(error), next: close.next },
                }
            }
        },
        Err(error) => Parsed { result: Err(error), next: argument.next },
    }
}

/// Where parsing goes on after an error at token `i`: behind the next
/// semicolon. Inside a block the closing brace stops the search as well,
/// and is left for the block to consume; so is the end of input,
/// everywhere.
pub open spec fn recover(toks: Seq<Token>, i: int, in_block: bool) -> int
    decreases toks.len() - i,
{
    let kind = kind_at(toks, i);
    if kind == TokenKind::Eof || (in_block && kind == TokenKind::RightBrace) {
        i
    } else if kind == TokenKind::Semicolon {
        i + 1
    } else {
        recover(toks, i + 1, in_block)
    }
}

/// The parameters of a function from token `i` on, up to the `)`, behind
/// the parameters `before`: each a name, a colon and a type, with a comma
/// behind each but the last, where it may be left out.
pub open spec fn parameters(toks: Seq<Token>, i: int, before: Seq<FunctionArg>) -> Parsed<
    Seq<FunctionArg>,
>
    decreases toks.len() - i,
{
    if kind_at(toks, i) == TokenKind::RightParen {
        Parsed { result: Ok(before), next: i + 1 }
    } else {
        let name = ident(toks, i);
        match name.result {
            Ok(name_ident) => {
                let colon = expect(toks, name.next, TokenKind::Colon);
                match colon.result {
                    Ok(_) => {
                        let typ = ident(toks, colon.next);
                        match typ.result {
                            Ok(typ_ident) => {
                                let args = before.push(
                                    FunctionArg { name: name_ident, typ: typ_ident },
                                );
                                if kind_at(toks, typ.next) == TokenKind::RightParen {
                                    Parsed { result: Ok(args), next: typ.next + 1 }
                                } else {
                                    let comma = expect(toks, typ.next, TokenKind::Comma);
                                    match comma.result {
                                        Ok(_) => parameters(toks, comma.next, args),
                                        Err(error) => Parsed {
                                            result: Err(error),
                                            next: comma.next,
                                        },
                                    }
                                }
                            },
                            Err(error) => Parsed { result: Err(error), next: typ.next },
                        }
                    },
                    Err(error) => Parsed { result: Err(error), next: colon.next },
                }
            },
            Err(error) => Parsed { result: Err(error), next: name.next },
        }
    }
}

/// The return type of a function, where a colon announces one at token
/// `i`.
pub open spec fn return_type(toks: Seq<Token>, i: int) -> Parsed<Option<Ident>> {
    if kind_at(toks, i) == TokenKind::Colon {
        let typ = ident(toks, i + 1);
        match typ.result {
            Ok(typ_ident) => Parsed { result: Ok(Some(typ_ident)), next: typ.next },
            Err(error) => Parsed { result: Err(error), next: typ.next },
        }
    } else {
        Parsed { result: Ok(None), next: i }
    }
}

/// What stands between the keyword `fn` and the block of a function.
pub struct Header {
    pub name: Ident,
    pub args: Seq<FunctionArg>,
    pub ret: Option<Ident>,
}

/// The header of the function whose `fn` is token `i`, up to and with the
/// `{` of its block.
pub open spec fn header(toks: Seq<Token>, i: int) -> Parsed<Header> {
    let keyword = expect(toks, i, TokenKind::Fn);
    match keyword.result {
        Ok(_) => {
            let name = ident(toks, keyword.next);
            match name.result {
                Ok(name_ident) => {
                    let open = expect(toks, name.next, TokenKind::LeftParen);
                    match open.result {
                        Ok(_) => {
                            let args = parameters(toks, open.next, Seq::empty());
                            match args.result {
                                Ok(params) => {
                                    let ret = return_type(toks, args.next);
                                    match ret.result {
                                        Ok(ret_ident) => {
                                            let brace = expect(
                                                toks,
                                                ret.next,
                                                TokenKind::LeftBrace,
                                            );
                                            match brace.result {
                                                Ok(_) => Parsed {
                                                    result: Ok(
                                                        Header {
                                                            name: name_ident,
                                                            args: params,
                                                            ret: ret_ident,
                                                        },
                                                    ),
                                                    next: brace.next,
                                                },
                                                Err(error) => Parsed {
                                                    result: Err(error),
                                                    next: brace.next,
                                                },
                                            }
                                        },
                                        Err(error) => Parsed {
                                            result: Err(error),
                                            next: ret.next,
                                        },
                                    }
                                },
                                Err(error) => Parsed { result: Err(error), next: args.next },
                            }
                        },
                        Err(error) => Parsed { result: Err(error), next: open.next },
                    }
                },
                Err(error) => Parsed { result: Err(error), next: name.next },
            }
        },
        Err(error) => Parsed { result: Err(error), next: keyword.next },
    }
}

/// The function whose `fn` is token `i`: its header and its block.
pub open spec fn function(src: Seq<u8>, toks: Seq<Token>, i: int) -> Recovered<FunctionView>
    decreases toks.len() - i, 0int,
{
    let head = header(toks, i);
    match head.result {
        Ok(h) if i < head.next <= toks.len() => {
            let body = block(src, toks, head.next, Seq::empty(), Seq::empty());
            Recovered {
                result: Ok(
                    FunctionView { name: h.name, args: h.args, ret: h.ret, block: body.stmts },
                ),
                next: body.next,
                errors: body.errors,
            }
        },
        Ok(_) => Recovered {
            result: Err(unexpected(toks, i, TokenKind::Fn)),
            next: i,
            errors: Seq::empty(),
        },
        Err(error) => Recovered { result: Err(error), next: head.next, errors: Seq::empty() },
    }
}

/// The statement that starts at token `i`: a binding with `let` or `mut`,
/// a function, or an expression.
pub open spec fn statement(src: Seq<u8>, toks: Seq<Token>, i: int) -> Recovered<StatementView>
    decreases toks.len() - i, 1int,
{
    let kind = kind_at(toks, i);
    if kind == TokenKind::Let || kind == TokenKind::Mut {
        let name = ident(toks, i + 1);
        match name.result {
            Ok(name_ident) => {
                let eq = expect(toks, name.next, TokenKind::Eq);
                match eq.result {
                    Ok(_) => {
                        let value = expression(src, toks, eq.next, 0);
                        match value.result {
                            Ok(e) => Recovered {
                                result: Ok(
                                    StatementView::Variable {
                                        ident: name_ident,
                                        expr: e,
                                        mutable: kind == TokenKind::Mut,
                                    },
                                ),
                                next: value.next,
                                errors: Seq::empty(),
                            },
                            Err(error) => Recovered {
                                result: Err(error),
                                next: value.next,
                                errors: Seq::empty(),
                            },
                        }
                    },
                    Err(error) => Recovered {
                        result: Err(error),
                        next: eq.next,
                        errors: Seq::empty(),
                    },
                }
            },
            Err(error) => Recovered { result: Err(error), next: name.next, errors: Seq::empty() },
        }
    } else if kind == TokenKind::Fn {
        let f = function(src, toks, i);
        match f.result {
            Ok(view) => Recovered {
                result: Ok(StatementView::Item(ItemView::Function(view))),
                next: f.next,
                errors: f.errors,
            },
            Err(error) => Recovered { result: Err(error), next: f.next, errors: f.errors },
        }
    } else {
        let value = expression(src, toks, i, 0);
        match value.result {
            Ok(e) => Recovered {
                result: Ok(StatementView::Expression(e)),
                next: value.next,
                errors: Seq::empty(),
            },
            Err(error) => Recovered { result: Err(error), next: value.next, errors: Seq::empty() },
        }
    }
}

/// The rest of a block from token `i` on, up to and with its `}`, behind
/// the statements `stmts` and the errors `errors`.
///
/// A semicolon ends each statement; the last one may do without. After an
/// error the block goes on where [`recover`] says. A block that the end of
/// input cuts short lacks its `}`, which is an error too.
pub open spec fn block(
    src: Seq<u8>,
    toks: Seq<Token>,
    i: int,
    stmts: Seq<StatementView>,
    errors: Seq<ParseError>,
) -> BlockParse
    decreases toks.len() - i, 2int,
{
    let kind = kind_at(toks, i);
    if kind == TokenKind::RightBrace {
        BlockParse { stmts, next: i + 1, errors }
    } else if kind == TokenKind::Eof {
        BlockParse { stmts, next: i, errors: errors.push(unexpected(toks, i, TokenKind::RightBrace)) }
    } else {
        let st = statement(src, toks, i);
        match st.result {
            Ok(view) => {
                let end = kind_at(toks, st.next);
                let after = if end == TokenKind::Semicolon {
                    st.next + 1
                } else if end == TokenKind::RightBrace {
                    st.next
                } else {
                    recover(toks, st.next, true)
                };
                let found = if end == TokenKind::Semicolon || end == TokenKind::RightBrace {
                    errors + st.errors
                } else {
                    (errors + st.errors).push(unexpected(toks, st.next, TokenKind::Semicolon))
                };
                if i < after <= toks.len() {
                    block(src, toks, after, stmts.push(view), found)
                } else {
                    BlockParse { stmts, next: i, errors: found }
                }
            },
            Err(error) => {
                let after = recover(toks, st.next, true);
                let found = (errors + st.errors).push(error);
                if i < after <= toks.len() {
                    block(src, toks, after, stmts, found)
                } else {
                    BlockParse { stmts, next: i, errors: found }
                }
            },
        }
    }
}

/// The item that starts at token `i`: a function.
pub open spec fn item(src: Seq<u8>, toks: Seq<Token>, i: int) -> Recovered<ItemView> {
    if kind_at(toks, i) == TokenKind::Fn {
        let f = function(src, toks, i);
        match f.result {
            Ok(view) => Recovered {
                result: Ok(ItemView::Function(view)),
                next: f.next,
                errors: f.errors,
            },
            Err(error) => Recovered { result: Err(error), next: f.next, errors: f.errors },
        }
    } else {
        Recovered {
            result: Err(unexpected(toks, i, TokenKind::Fn)),
            next: i,
            errors: Seq::empty(),
        }
    }
}

/// The items of a program from token `i` on, behind the items `items` and
/// the errors `errors`.
///
/// Each item has a semicolon behind it. After an error the program goes on
/// where [`recover`] says.
pub open spec fn program(
    src: Seq<u8>,
    toks: Seq<Token>,
    i: int,
    items: Seq<ItemView>,
    errors: Seq<ParseError>,
) -> ProgramParse
    decreases toks.len() - i,
{
    if kind_at(toks, i) == TokenKind::Eof {
        ProgramParse { items, errors }
    } else {
        let it = item(src, toks, i);
        match it.result {
            Ok(view) => {
                let end = expect(toks, it.next, TokenKind::Semicolon);
                let after = match end.result {
                    Ok(_) => end.next,
                    Err(_) => recover(toks, it.next, false),
                };
                let found = match end.result {
                    Ok(_) => errors + it.errors,
                    Err(error) => (errors + it.errors).push(error),
                };
                if i < after <= toks.len() {
                    program(src, toks, after, items.push(view), found)
                } else {
                    ProgramParse { items, errors: found }
                }
            },
            Err(error) => {
                let after = recover(toks, it.next, false);
                let found = (errors + it.errors).push(error);
                if i < after <= toks.len() {
                    program(src, toks, after, items, found)
                } else {
                    ProgramParse { items, errors: found }
                }
            },
        }
    }
}

/// Overflow: a number that does not fit in 64 bits is never made to fit.
/// Where the token at `i` writes such a number, the expression that starts
/// there is an overflow error at that token, whatever follows it.
pub proof fn lemma_overflow_is_an_error(src: Seq<u8>, toks: Seq<Token>, i: int, mbp: u8)
    requires
        kind_at(toks, i) == TokenKind::Number,
        number_value(span_at(toks, i).bytes_of(src)) > u64::MAX,
    ensures
        expression(src, toks, i, mbp) == (Parsed::<ExpressionView> {
            result: Err(ParseError::IntegerOverflow { at: span_at(toks, i) }),
            next: i,
        }),
{
}

/// A number that fits in 64 bits is the literal of its value.
pub proof fn lemma_number_is_its_value(src: Seq<u8>, toks: Seq<Token>, i: int)
    requires
        kind_at(toks, i) == TokenKind::Number,
        number_value(span_at(toks, i).bytes_of(src)) <= u64::MAX,
    ensures
        operand(src, toks, i) == (Parsed::<ExpressionView> {
            result: Ok(
                ExpressionView::Literal(
                    Literal::Integer(number_value(span_at(toks, i).bytes_of(src)) as u64),
                ),
            ),
            next: i + 1,
        }),
{
}

} // verus!
