use vstd::prelude::*;

use super::error::ParseError;
use super::grammar;
use super::Parser;
use crate::ast::stmt::{Function, FunctionArg, Statement};
use crate::ast::view::{statement_views, FunctionView, StatementView};
use crate::ast::Item;
use crate::lexer::TokenKind;

verus! {

impl<'src> Parser<'src> {
    /// Parses the parameters of a function, behind its `(` and up to its
    /// `)`.
    fn parameters(&mut self) -> (r: Result<Vec<FunctionArg>, ParseError>)
        requires
            old(self).wf(),
        ensures
            final(self).wf(),
            final(self).source() == old(self).source(),
            final(self).tokens() == old(self).tokens(),
            ({
                let parsed = grammar::parameters(
                    old(self).tokens(),
                    old(self).position(),
                    Seq::empty(),
                );
                &&& parsed.next == final(self).position()
                &&& match r {
                    Ok(args) => parsed.result == Ok::<Seq<FunctionArg>, ParseError>(args@),
                    Err(error) => parsed.result == Err::<Seq<FunctionArg>, ParseError>(error),
                }
            }),
            old(self).position() <= final(self).position() < old(self).tokens().len(),
    {
        let ghost toks = self.tokens();
        let ghost start = self.position();
        proof {
            self.lemma_wf();
        }
        let mut args: Vec<FunctionArg> = Vec::new();
        loop
            invariant
                self.wf(),
                self.source() == old(self).source(),
                self.tokens() == toks,
                toks == old(self).tokens(),
                start == old(self).position(),
                0 <= start <= self.position() < toks.len(),
                grammar::parameters(toks, self.position(), args@) == grammar::parameters(
                    toks,
                    start,
                    Seq::empty(),
                ),
            decreases toks.len() - self.position(),
        {
            if self.at(TokenKind::RightParen) {
                self.next();
                return Ok(args);
            }
            let name = self.ident();
            let name = match name {
                Ok(name) => name,
                Err(error) => {
                    return Err(error);
                },
            };
            let colon = self.eat(TokenKind::Colon);
            match colon {
                Ok(_) => {},
                Err(error) => {
                    return Err(error);
                },
            }
            let typ = self.ident();
            let typ = match typ {
                Ok(typ) => typ,
                Err(error) => {
                    return Err(error);
                },
            };
            args.push(FunctionArg { name, typ });
            if self.at(TokenKind::RightParen) {
                self.next();
                return Ok(args);
            }
            let comma = self.eat(TokenKind::Comma);
            match comma {
                Ok(_) => {},
                Err(error) => {
                    return Err(error);
                },
            }
        }
    }

    /// Parses a function: its header and its block.
    ///
    /// The errors that are found inside the block are added to `errors`;
    /// one in the header is returned.
    pub(super) fn function(&mut self, errors: &mut Vec<ParseError>) -> (r: Result<
        Function,
        ParseError,
    >)
        requires
            old(self).wf(),
        ensures
            final(self).wf(),
            final(self).source() == old(self).source(),
            final(self).tokens() == old(self).tokens(),
            ({
                let parsed = grammar::function(
                    old(self).source(),
                    old(self).tokens(),
                    old(self).position(),
                );
                &&& parsed.next == final(self).position()
                &&& final(errors)@ == old(errors)@ + parsed.errors
                &&& match r {
                    Ok(function) => parsed.result == Ok::<FunctionView, ParseError>(function@),
                    Err(error) => parsed.result == Err::<FunctionView, ParseError>(error),
                }
            }),
            old(self).position() <= final(self).position() < old(self).tokens().len(),
            r is Ok ==> old(self).position() < final(self).position(),
        decreases old(self).tokens().len() - old(self).position(), 0int,
    {
        let ghost found = errors@;
        proof {
            self.lemma_wf();
            assert(found + Seq::<ParseError>::empty() =~= found);
        }
        let keyword = self.eat(TokenKind::Fn);
        match keyword {
            Ok(_) => {},
            Err(error) => {
                return Err(error);
            },
        }
        let name = self.ident();
        let name = match name {
            Ok(name) => name,
            Err(error) => {
                return Err(error);
            },
        };

        let open = self.eat(TokenKind::LeftParen);
        match open {
            Ok(_) => {},
            Err(error) => {
                return Err(error);
            },
        }
        let args = self.parameters();
        let args = match args {
            Ok(args) => args,
            Err(error) => {
                return Err(error);
            },
        };

        let ret = if self.at(TokenKind::Colon) {
            self.next();
            let typ = self.ident();
            match typ {
                Ok(typ) => Some(typ),
                Err(error) => {
                    return Err(error);
                },
            }
        } else {
            None
        };

        let brace = self.eat(TokenKind::LeftBrace);
        match brace {
            Ok(_) => {},
            Err(error) => {
                return Err(error);
            },
        }
        let block = self.block(errors);

        let function = Function { name, args, ret, block };
        proof {
            assert(function@.block =~= statement_views(block@));
        }
        Ok(function)
    }

    /// Parses the statement that starts at the next token.
    ///
    /// The errors that are found inside a block of the statement are added
    /// to `errors`; one in the statement itself is returned.
    pub(super) fn statement(&mut self, errors: &mut Vec<ParseError>) -> (r: Result<
        Statement,
        ParseError,
    >)
        requires
            old(self).wf(),
        ensures
            final(self).wf(),
            final(self).source() == old(self).source(),
            final(self).tokens() == old(self).tokens(),
            ({
                let parsed = grammar::statement(
                    old(self).source(),
                    old(self).tokens(),
                    old(self).position(),
                );
                &&& parsed.next == final(self).position()
                &&& final(errors)@ == old(errors)@ + parsed.errors
                &&& match r {
                    Ok(statement) => parsed.result == Ok::<StatementView, ParseError>(statement@),
                    Err(error) => parsed.result == Err::<StatementView, ParseError>(error),
                }
            }),
            old(self).position() <= final(self).position() < old(self).tokens().len(),
            r is Ok ==> old(self).position() < final(self).position(),
        decreases old(self).tokens().len() - old(self).position(), 1int,
    {
        let ghost found = errors@;
        proof {
            self.lemma_wf();
            assert(found + Seq::<ParseError>::empty() =~= found);
        }
        let kind = self.peek();
        if kind == TokenKind::Let || kind == TokenKind::Mut {
            self.next();
            let ident = self.ident();
            let ident = match ident {
                Ok(ident) => ident,
                Err(error) => {
                    return Err(error);
                },
            };
            let eq = self.eat(TokenKind::Eq);
            match eq {
                Ok(_) => {},
                Err(error) => {
                    return Err(error);
                },
            }
            let expr = self.expression();
            match expr {
                Ok(expr) => Ok(Statement::Variable { ident, expr, mutable: kind == TokenKind::Mut }),
                Err(error) => Err(error),
            }
        } else if kind == TokenKind::Fn {
            let function = self.function(errors);
            match function {
                Ok(function) => Ok(Statement::Item(Item::Function(function))),
                Err(error) => Err(error),
            }
        } else {
            let expr = self.expression();
            match expr {
                Ok(expr) => Ok(Statement::Expression(expr)),
                Err(error) => Err(error),
            }
        }
    }

    /// Parses the statements of a block, behind its `{` and up to its `}`.
    ///
    /// Every error that is found is added to `errors`, and the block goes
    /// on behind the next semicolon, or ends at the next `}`.
    pub(super) fn block(&mut self, errors: &mut Vec<ParseError>) -> (stmts: Vec<Statement>)
        requires
            old(self).wf(),
        ensures
            final(self).wf(),
            final(self).source() == old(self).source(),
            final(self).tokens() == old(self).tokens(),
            ({
                let parsed = grammar::block(
                    old(self).source(),
                    old(self).tokens(),
                    old(self).position(),
                    Seq::empty(),
                    Seq::empty(),
                );
                &&& parsed.next == final(self).position()
                &&& final(errors)@ == old(errors)@ + parsed.errors
                &&& parsed.stmts == statement_views(stmts@)
            }),
            old(self).position() <= final(self).position() < old(self).tokens().len(),
        decreases old(self).tokens().len() - old(self).position(), 2int,
    {
        let ghost src = self.source();
        let ghost toks = self.tokens();
        let ghost start = self.position();
        let ghost given = errors@;
        let ghost goal = grammar::block(src, toks, start, Seq::empty(), Seq::empty());
        let ghost mut found: Seq<ParseError> = Seq::empty();
        let mut stmts: Vec<Statement> = Vec::new();
        proof {
            self.lemma_wf();
            assert(statement_views(stmts@) =~= Seq::<StatementView>::empty());
            assert(given + found =~= given);
        }
        loop
            invariant
                self.wf(),
                self.source() == src,
                self.tokens() == toks,
                src == old(self).source(),
                toks == old(self).tokens(),
                start == old(self).position(),
                given == old(errors)@,
                0 <= start <= self.position() < toks.len(),
                errors@ == given + found,
                goal == grammar::block(src, toks, start, Seq::empty(), Seq::empty()),
                goal == grammar::block(src, toks, self.position(), statement_views(stmts@), found),
            decreases toks.len() - self.position(),
        {
            let ghost at = self.position();
            let ghost views = statement_views(stmts@);
            let kind = self.peek();
            if kind == TokenKind::RightBrace {
                self.next();
                return stmts;
            }
            if kind == TokenKind::Eof {
                let actual = self.current();
                errors.push(
                    ParseError::UnexpectedToken {
                        expected: TokenKind::RightBrace,
                        actual: actual.kind(),
                        at: actual.span(),
                    },
                );
                proof {
                    assert(errors@ =~= given + found.push(
                        grammar::unexpected(toks, at, TokenKind::RightBrace),
                    ));
                }
                return stmts;
            }
            let statement = self.statement(errors);
            let ghost parsed = grammar::statement(src, toks, at);
            match statement {
                Ok(statement) => {
                    let ghost view = statement@;
                    stmts.push(statement);
                    proof {
                        assert(statement_views(stmts@) =~= views.push(view));
                        assert(errors@ =~= given + (found + parsed.errors));
                        found = found + parsed.errors;
                    }
                    let end = self.peek();
                    if end == TokenKind::Semicolon {
                        self.next();
                    } else if end == TokenKind::RightBrace {
                    } else {
                        let actual = self.current();
                        errors.push(
                            ParseError::UnexpectedToken {
                                expected: TokenKind::Semicolon,
                                actual: actual.kind(),
                                at: actual.span(),
                            },
                        );
                        proof {
                            let error = grammar::unexpected(toks, parsed.next, TokenKind::Semicolon);
                            assert(errors@ =~= given + found.push(error));
                            found = found.push(error);
                        }
                        self.recover(true);
                    }
                },
                Err(error) => {
                    errors.push(error);
                    proof {
                        assert(errors@ =~= given + (found + parsed.errors).push(error));
                        found = (found + parsed.errors).push(error);
                    }
                    self.recover(true);
                },
            }
        }
    }
}

} // verus!
