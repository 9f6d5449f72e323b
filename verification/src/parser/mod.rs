//! Implements parsing of a Serqlane program to an AST.
//!
//! Given a piece of source code, the parser will tokenize it using
//! the [`crate::lexer`] module and validate the syntax of the program.
//! On success, a list of [`Item`]s encoding the program's structure
//! is returned; otherwise the list of the errors that were found.
//!
//! Implementation-wise, this is a hand-rolled recursive descent parser
//! using a Pratt parsing scheme to handle expressions and precedence.
//! What it accepts, and what it makes of it, is defined in [`grammar`].

use vstd::prelude::*;
use vstd::string::*;
use vstd::utf8::*;

pub mod error;
mod expr;
pub mod grammar;
mod stmt;

pub use error::ParseError;
pub use expr::{infix_binding_power, parse_number, postfix_binding_power, prefix_binding_power};

use crate::ast::view::{item_views, ItemView};
use crate::ast::{Ident, Item};
use crate::diagnostic::SourceSpan;
use crate::lexer::stream::{token_fits, tokens};
use crate::lexer::{Lexer, Token, TokenKind};
use crate::text::lemma_cursor_boundary;
use grammar::{kind_at, program};

verus! {

/// Parses a piece of source code, one token of lookahead at a time.
#[derive(Clone, Debug)]
pub struct Parser<'src> {
    source: &'src str,
    lexer: Lexer<'src>,
    // The token that comes next. It is `Eof` from the end of input on.
    current: Token,
}

impl<'src> Parser<'src> {
    /// The bytes of the source code.
    pub closed spec fn source(&self) -> Seq<u8> {
        self.source.spec_bytes()
    }

    /// The tokens of the source code.
    pub closed spec fn tokens(&self) -> Seq<Token> {
        tokens(self.source.spec_bytes())
    }

    /// The index of the token that comes next.
    pub closed spec fn position(&self) -> int {
        self.tokens().len() - 1 - self.lexer.remaining().len()
    }

    /// The parser holds the token at its position, and its lexer those
    /// behind it.
    pub closed spec fn wf(&self) -> bool {
        &&& self.lexer.wf()
        &&& self.lexer.source() == self.source()
        &&& 0 <= self.position() < self.tokens().len()
        &&& self.current == self.tokens()[self.position()]
        &&& self.lexer.remaining() == self.tokens().skip(self.position() + 1)
        &&& token_fits(self.source(), self.current)
        &&& (self.current.kind == TokenKind::Eof <==> self.lexer.remaining().len() == 0)
    }

    /// What the tokens and the position of a parser are.
    pub proof fn lemma_wf(&self)
        requires
            self.wf(),
        ensures
            self.tokens() == tokens(self.source()),
            0 <= self.position() < self.tokens().len(),
            token_fits(self.source(), self.tokens()[self.position()]),
            valid_utf8(self.source()),
    {
        broadcast use encode_utf8_valid_utf8;

    }

    /// Creates a new [`Parser`] over a given string of source code, or
    /// `None` where the offsets of `source` do not fit in 32 bits.
    pub fn new(source: &'src str) -> (r: Option<Self>)
        ensures
            r is Some <==> source.spec_bytes().len() <= u32::MAX,
            r matches Some(parser) ==> parser.wf() && parser.source() == source.spec_bytes()
                && parser.tokens() == tokens(source.spec_bytes()) && parser.position() == 0,
    {
        let lexer = Lexer::new(source);
        let mut lexer = match lexer {
            Some(lexer) => lexer,
            None => {
                return None;
            },
        };
        let ghost all = lexer.remaining();
        let first = lexer.next();
        match first {
            Some(current) => {
                proof {
                    assert(all.drop_first() =~= all.skip(1));
                }
                Some(Self { source, lexer, current })
            },
            None => {
                proof {
                    assert(crate::text::is_cursor(source.spec_bytes(), 0)) by {
                        broadcast use encode_utf8_valid_utf8;

                        assert(source.spec_bytes().subrange(
                            0,
                            source.spec_bytes().len() as int,
                        ) =~= source.spec_bytes());
                    }
                    crate::lexer::lemma_lex_nonempty(source.spec_bytes(), 0, TokenKind::Eof);
                }
                None
            },
        }
    }

    /// The text that `span` covers.
    pub(super) fn text(&self, span: SourceSpan) -> (piece: &'src str)
        requires
            span.lies_in(self.source()),
        ensures
            piece.spec_bytes() == span.bytes_of(self.source()),
    {
        let piece = span.text(self.source);
        match piece {
            Some(piece) => piece,
            None => "",
        }
    }

    /// The token that comes next.
    pub(super) fn current(&self) -> (token: Token)
        requires
            self.wf(),
        ensures
            token == self.tokens()[self.position()],
            token.kind == kind_at(self.tokens(), self.position()),
            token_fits(self.source(), token),
            token.span.lies_in(self.source()),
    {
        proof {
            broadcast use encode_utf8_valid_utf8;

            lemma_cursor_boundary(self.source(), self.current.span.start_offset() as int);
            lemma_cursor_boundary(self.source(), self.current.span.end_offset() as int);
        }
        self.current
    }

    /// The kind of the token that comes next.
    pub(super) fn peek(&self) -> (kind: TokenKind)
        requires
            self.wf(),
        ensures
            kind == kind_at(self.tokens(), self.position()),
    {
        self.current.kind()
    }

    pub(super) fn at(&self, token: TokenKind) -> (r: bool)
        requires
            self.wf(),
        ensures
            r == (kind_at(self.tokens(), self.position()) == token),
    {
        self.peek() == token
    }

    pub(super) fn eof(&self) -> (r: bool)
        requires
            self.wf(),
        ensures
            r == (kind_at(self.tokens(), self.position()) == TokenKind::Eof),
    {
        self.at(TokenKind::Eof)
    }

    /// Consumes the token that comes next, unless it is `Eof`.
    pub(super) fn next(&mut self) -> (token: Token)
        requires
            old(self).wf(),
        ensures
            final(self).wf(),
            final(self).source() == old(self).source(),
            final(self).tokens() == old(self).tokens(),
            token == old(self).tokens()[old(self).position()],
            final(self).position() == if kind_at(old(self).tokens(), old(self).position())
                == TokenKind::Eof {
                old(self).position()
            } else {
                old(self).position() + 1
            },
            final(self).position() < old(self).tokens().len(),
    {
        let token = self.current;
        let ghost all = self.tokens();
        let ghost at = self.position();
        let following = self.lexer.next();
        match following {
            Some(following) => {
                proof {
                    assert(all.skip(at + 1).drop_first() =~= all.skip(at + 2));
                    assert(following == all[at + 1]);
                }
                self.current = following;
                assert(self.position() == at + 1);
            },
            None => {
                assert(self.lexer.remaining() =~= all.skip(at + 1));
            },
        }
        token
    }

    /// Consumes a token of the given kind, or reports what stands in its
    /// place.
    pub(super) fn eat(&mut self, token: TokenKind) -> (r: Result<(), ParseError>)
        requires
            old(self).wf(),
            token != TokenKind::Eof,
        ensures
            final(self).wf(),
            final(self).source() == old(self).source(),
            final(self).tokens() == old(self).tokens(),
            grammar::expect(old(self).tokens(), old(self).position(), token) == (grammar::Parsed {
                result: r,
                next: final(self).position(),
            }),
            final(self).position() < old(self).tokens().len(),
    {
        let actual = self.current();
        if actual.kind() == token {
            self.next();
            Ok(())
        } else {
            Err(ParseError::UnexpectedToken { expected: token, actual: actual.kind(), at: actual.span() })
        }
    }

    /// Consumes an identifier, or reports what stands in its place.
    pub(super) fn ident(&mut self) -> (r: Result<Ident, ParseError>)
        requires
            old(self).wf(),
        ensures
            final(self).wf(),
            final(self).source() == old(self).source(),
            final(self).tokens() == old(self).tokens(),
            grammar::ident(old(self).tokens(), old(self).position()) == (grammar::Parsed {
                result: r,
                next: final(self).position(),
            }),
            final(self).position() < old(self).tokens().len(),
    {
        let actual = self.current();
        if actual.kind() == TokenKind::Identifier {
            self.next();
            Ok(Ident::from(actual))
        } else {
            Err(
                ParseError::UnexpectedToken {
                    expected: TokenKind::Identifier,
                    actual: actual.kind(),
                    at: actual.span(),
                },
            )
        }
    }

    /// Passes over the tokens up to the place at which parsing goes on
    /// after an error.
    pub(super) fn recover(&mut self, in_block: bool)
        requires
            old(self).wf(),
        ensures
            final(self).wf(),
            final(self).source() == old(self).source(),
            final(self).tokens() == old(self).tokens(),
            final(self).position() == grammar::recover(
                old(self).tokens(),
                old(self).position(),
                in_block,
            ),
            old(self).position() <= final(self).position() < old(self).tokens().len(),
            old(self).position() == final(self).position() ==> {
                let kind = kind_at(old(self).tokens(), old(self).position());
                kind == TokenKind::Eof || (in_block && kind == TokenKind::RightBrace)
            },
    {
        loop
            invariant
                self.wf(),
                self.source() == old(self).source(),
                self.tokens() == old(self).tokens(),
                old(self).position() <= self.position() < self.tokens().len(),
                grammar::recover(self.tokens(), self.position(), in_block) == grammar::recover(
                    old(self).tokens(),
                    old(self).position(),
                    in_block,
                ),
            decreases self.tokens().len() - self.position(),
        {
            let kind = self.peek();
            if kind == TokenKind::Eof || (in_block && kind == TokenKind::RightBrace) {
                return ;
            }
            self.next();
            if kind == TokenKind::Semicolon {
                return ;
            }
        }
    }

    /// Parses the item that starts at the next token: a function.
    ///
    /// The errors that are found inside its block are added to `errors`;
    /// one in its header is returned.
    pub(super) fn item(&mut self, errors: &mut Vec<ParseError>) -> (r: Result<Item, ParseError>)
        requires
            old(self).wf(),
        ensures
            final(self).wf(),
            final(self).source() == old(self).source(),
            final(self).tokens() == old(self).tokens(),
            ({
                let parsed = grammar::item(
                    old(self).source(),
                    old(self).tokens(),
                    old(self).position(),
                );
                &&& parsed.next == final(self).position()
                &&& final(errors)@ == old(errors)@ + parsed.errors
                &&& match r {
                    Ok(item) => parsed.result == Ok::<ItemView, ParseError>(item@),
                    Err(error) => parsed.result == Err::<ItemView, ParseError>(error),
                }
            }),
            old(self).position() <= final(self).position() < old(self).tokens().len(),
            r is Ok ==> old(self).position() < final(self).position(),
    {
        if self.at(TokenKind::Fn) {
            let function = self.function(errors);
            match function {
                Ok(function) => Ok(Item::Function(function)),
                Err(error) => Err(error),
            }
        } else {
            proof {
                self.lemma_wf();
                assert(errors@ + Seq::<ParseError>::empty() =~= errors@);
            }
            let actual = self.current();
            Err(
                ParseError::UnexpectedToken {
                    expected: TokenKind::Fn,
                    actual: actual.kind(),
                    at: actual.span(),
                },
            )
        }
    }

    /// Parses the program from the next token on: functions, each with a
    /// semicolon behind it, up to the end of input.
    ///
    /// Gives the items of the program where no error was found, and
    /// otherwise every error that was found, in the order of the source.
    /// After an error the parser goes on behind the next semicolon, or,
    /// inside a block, at the brace that closes it.
    pub fn parse(&mut self) -> (r: Result<Vec<Item>, Vec<ParseError>>)
        requires
            old(self).wf(),
        ensures
            final(self).wf(),
            final(self).source() == old(self).source(),
            final(self).tokens() == old(self).tokens(),
            ({
                let parsed = program(
                    old(self).source(),
                    old(self).tokens(),
                    old(self).position(),
                    Seq::empty(),
                    Seq::empty(),
                );
                match r {
                    Ok(items) => parsed.errors.len() == 0 && item_views(items@) == parsed.items,
                    Err(errors) => errors@.len() > 0 && errors@ == parsed.errors,
                }
            }),
    {
        let mut items: Vec<Item> = Vec::new();
        let mut errors: Vec<ParseError> = Vec::new();
        let ghost src = self.source();
        let ghost toks = self.tokens();
        let ghost goal = program(src, toks, self.position(), Seq::empty(), Seq::empty());
        proof {
            assert(item_views(items@) =~= Seq::<ItemView>::empty());
        }
        loop
            invariant
                self.wf(),
                self.source() == src,
                self.tokens() == toks,
                src == old(self).source(),
                toks == old(self).tokens(),
                0 <= self.position() < toks.len(),
                goal == program(
                    old(self).source(),
                    old(self).tokens(),
                    old(self).position(),
                    Seq::empty(),
                    Seq::empty(),
                ),
                goal == program(src, toks, self.position(), item_views(items@), errors@),
            decreases toks.len() - self.position(),
        {
            let ghost items_before = item_views(items@);
            if self.eof() {
                if errors.len() == 0 {
                    return Ok(items);
                } else {
                    return Err(errors);
                }
            }
            let item = self.item(&mut errors);
            match item {
                Ok(item) => {
                    let end = self.eat(TokenKind::Semicolon);
                    items.push(item);
                    proof {
                        assert(item_views(items@) =~= items_before.push(item@));
                    }
                    match end {
                        Ok(_) => {},
                        Err(error) => {
                            errors.push(error);
                            self.recover(false);
                        },
                    }
                },
                Err(error) => {
                    errors.push(error);
                    self.recover(false);
                },
            }
        }
    }
}

} // verus!
