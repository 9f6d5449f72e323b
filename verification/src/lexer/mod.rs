//! Implements lexical analysis of Serqlane programs.
//!
//! Lexing is the first stage of the compiler and breaks down a given
//! piece of source code into a sequence of tokens that is easier for
//! us to work with in subsequent stages:
//!
//! ```no_run
//! mut x = 5
//! ```
//!
//! is turned into the following stream:
//!
//! ```no_run
//! Mut Identifier Eq Number Semicolon Eof
//! ```
//!
//! At the core, the [`Lexer`] allows for tokens to be pulled on demand
//! through [`Lexer::next`], which can then be fed into the parser. It
//! should be noted that no parsing work is performed during lexing, which
//! makes a [`Token`] rather low-level. Consider for example
//! [`TokenKind::Number`], which doesn't specify the type of int that was
//! encountered.
//!
//! Serqlane supports the automatic insertion of implicit semicolons to
//! terminate expressions following the token kinds listed in
//! [`terminates_expression`]. What the lexer yields for a text is defined
//! in [`stream`].

use vstd::prelude::*;
use vstd::string::*;

pub mod classes;
pub mod cursor;
mod error;
pub mod keywords;
pub mod laws;
pub mod stream;
mod token;

pub use error::{error_class, lemma_error_token, LexicalError};
pub use token::{should_terminate_expr, terminates_expression, Token, TokenKind};

use crate::diagnostic::SourceSpan;
use classes::{is_digit, is_ident1, is_ident2, is_lowercase, is_whitespace};
use crate::text::{char_at, char_end, is_cursor, lemma_ascii_char, lemma_char_step};
use cursor::{lemma_run_end, run_end, CharClass, Cursor};
use keywords::{all_lower, check_keyword, padded, MAX_KEYWORD_LEN};
use stream::{
    comment_end, lemma_comment_end, lemma_digit_run, lemma_newline_cursor, lemma_scan_token,
    lemma_trivia, lex_from, name_kind, scan_token, token_fits, tokens, trivia,
};

verus! {

/// Breaks down a given piece of source code into tokens.
///
/// The only public-facing interface to drive the lexer is
/// [`Lexer::next`]; it yields `None` after [`TokenKind::Eof`] has been
/// yielded once.
///
/// See the [module documentation][crate::lexer] for more details.
#[derive(Clone, Debug)]
pub struct Lexer<'src> {
    // The place in the source code behind the last token that was read.
    cursor: Cursor<'src>,
    // The last token that was read from the source.
    // This is used to determine when an implicit semicolon
    // should be injected into the stream.
    previous: TokenKind,
    // Whether `Eof` has been yielded.
    done: bool,
}

impl<'src> Lexer<'src> {
    /// The lexer stands inside its source, whose offsets fit in 32 bits.
    pub closed spec fn wf(&self) -> bool {
        self.cursor.wf()
    }

    /// The bytes of the source code.
    pub closed spec fn source(&self) -> Seq<u8> {
        self.cursor.text()
    }

    /// The tokens that are still to come.
    pub closed spec fn remaining(&self) -> Seq<Token> {
        if self.done {
            Seq::empty()
        } else {
            lex_from(self.cursor.text(), self.cursor.offset(), self.previous)
        }
    }

    /// Creates a new [`Lexer`] over a given string of source code.
    ///
    /// Source files need to be smaller than 4GiB so that spans can cover
    /// the entire text with 32-bit offsets: a larger one is rejected.
    pub fn new(source: &'src str) -> (r: Option<Self>)
        ensures
            r is Some <==> source.spec_bytes().len() <= u32::MAX,
            r matches Some(lexer) ==> lexer.wf() && lexer.source() == source.spec_bytes()
                && lexer.remaining() == tokens(source.spec_bytes()),
    {
        match Cursor::new(source) {
            Some(cursor) => Some(Self { cursor, previous: TokenKind::Eof, done: false }),
            None => None,
        }
    }

    fn match1(cursor: &mut Cursor<'src>, c: char, a: TokenKind, b: TokenKind) -> (kind: TokenKind)
        requires
            old(cursor).wf(),
        ensures
            final(cursor).wf(),
            final(cursor).text() == old(cursor).text(),
            (kind, final(cursor).offset()) == stream::match1(
                old(cursor).text(),
                old(cursor).offset(),
                c,
                a,
                b,
            ),
    {
        if cursor.eat(c) {
            a
        } else {
            b
        }
    }

    fn match2(
        cursor: &mut Cursor<'src>,
        c1: char,
        a: TokenKind,
        c2: char,
        b: TokenKind,
        c: TokenKind,
    ) -> (kind: TokenKind)
        requires
            old(cursor).wf(),
        ensures
            final(cursor).wf(),
            final(cursor).text() == old(cursor).text(),
            (kind, final(cursor).offset()) == stream::match2(
                old(cursor).text(),
                old(cursor).offset(),
                c1,
                a,
                c2,
                b,
                c,
            ),
    {
        if cursor.eat(c1) {
            a
        } else if cursor.eat(c2) {
            b
        } else {
            c
        }
    }

    /// Consumes a line comment up to the line feed that ends it.
    fn line_comment(cursor: &mut Cursor<'src>)
        requires
            old(cursor).wf(),
        ensures
            final(cursor).wf(),
            final(cursor).text() == old(cursor).text(),
            final(cursor).offset() == run_end(
                old(cursor).text(),
                old(cursor).offset(),
                CharClass::InLine,
            ),
    {
        cursor.skip(CharClass::InLine);
    }

    /// Consumes the rest of a block comment, its `*/` included, and tells
    /// whether the comment ended at all.
    fn multi_line_comment(cursor: &mut Cursor<'src>) -> (closed: bool)
        requires
            old(cursor).wf(),
        ensures
            final(cursor).wf(),
            final(cursor).text() == old(cursor).text(),
            closed == (comment_end(old(cursor).text(), old(cursor).offset()) is Some),
            closed ==> comment_end(old(cursor).text(), old(cursor).offset()) == Some(
                final(cursor).offset(),
            ),
    {
        loop
            invariant
                cursor.wf(),
                cursor.text() == old(cursor).text(),
                comment_end(cursor.text(), cursor.offset()) == comment_end(
                    old(cursor).text(),
                    old(cursor).offset(),
                ),
            decreases cursor.text().len() - cursor.offset(),
        {
            proof {
                cursor.lemma_wf();
                if cursor.offset() < cursor.text().len() {
                    lemma_char_step(cursor.text(), cursor.offset());
                }
            }
            let c = cursor.peek();
            if c.is_none() {
                return false;
            }
            cursor.bump();
            if c == Some('*') {
                if cursor.eat('/') {
                    return true;
                }
            }
        }
    }

    /// Consumes whitespace and comments, and reports the offset of the
    /// first line feed among them.
    fn whitespace(cursor: &mut Cursor<'src>) -> (newline: Option<u32>)
        requires
            old(cursor).wf(),
        ensures
            final(cursor).wf(),
            final(cursor).text() == old(cursor).text(),
            final(cursor).offset() == trivia(old(cursor).text(), old(cursor).offset()).end,
            match newline {
                Some(at) => trivia(old(cursor).text(), old(cursor).offset()).newline == Some(
                    at as int,
                ),
                None => trivia(old(cursor).text(), old(cursor).offset()).newline is None,
            },
    {
        let mut newline: Option<u32> = None;
        let ghost s = cursor.text();
        let ghost whole = trivia(s, cursor.offset());
        loop
            invariant
                cursor.wf(),
                cursor.text() == s,
                s == old(cursor).text(),
                whole == trivia(s, old(cursor).offset()),
                whole.end == trivia(s, cursor.offset()).end,
                match newline {
                    Some(at) => whole.newline == Some(at as int),
                    None => whole.newline == trivia(s, cursor.offset()).newline,
                },
            decreases s.len() - cursor.offset(),
        {
            proof {
                cursor.lemma_wf();
                if cursor.offset() < s.len() {
                    lemma_char_step(s, cursor.offset());
                }
            }
            let next = cursor.peek();
            let c = match next {
                Some(c) => c,
                None => {
                    return newline;
                },
            };
            if c == '\n' {
                // When handling newlines, the caller checks the last
                // token of the line to see if an implicit semicolon
                // should be injected to terminate an expression.
                if newline.is_none() {
                    newline = Some(cursor.position());
                }
                cursor.bump();
            } else if is_whitespace(c) {
                // Other whitespace can be trivially ignored.
                cursor.bump();
            } else if c == '/' {
                // Handle comments.
                let mut ahead = *cursor;
                ahead.bump();
                proof {
                    ahead.lemma_wf();
                    if ahead.offset() < s.len() {
                        lemma_char_step(s, ahead.offset());
                    }
                }
                if ahead.eat('/') {
                    Self::line_comment(&mut ahead);
                    proof {
                        lemma_run_end(s, char_end(s, char_end(s, cursor.offset())), CharClass::InLine);
                    }
                    *cursor = ahead;
                } else if ahead.eat('*') {
                    proof {
                        lemma_comment_end(s, ahead.offset());
                    }
                    if Self::multi_line_comment(&mut ahead) {
                        *cursor = ahead;
                    } else {
                        return newline;
                    }
                } else {
                    return newline;
                }
            } else {
                return newline;
            }
        }
    }

    fn string(cursor: &mut Cursor<'src>) -> (kind: TokenKind)
        requires
            old(cursor).wf(),
        ensures
            final(cursor).wf(),
            final(cursor).text() == old(cursor).text(),
            ({
                let s = old(cursor).text();
                let quote = run_end(s, old(cursor).offset(), CharClass::InString);
                (kind, final(cursor).offset()) == if quote < s.len() {
                    (TokenKind::String, char_end(s, quote))
                } else {
                    (TokenKind::Error, quote)
                }
            }),
    {
        proof {
            cursor.lemma_wf();
            lemma_run_end(cursor.text(), cursor.offset(), CharClass::InString);
        }
        cursor.skip(CharClass::InString);
        if cursor.at_end() {
            return TokenKind::Error;
        }
        cursor.bump();
        TokenKind::String
    }

    fn number(cursor: &mut Cursor<'src>) -> (kind: TokenKind)
        requires
            old(cursor).wf(),
        ensures
            final(cursor).wf(),
            final(cursor).text() == old(cursor).text(),
            kind == TokenKind::Number,
            final(cursor).offset() == run_end(
                old(cursor).text(),
                old(cursor).offset(),
                CharClass::Digit,
            ),
    {
        cursor.skip(CharClass::Digit);
        TokenKind::Number
    }

    fn name(cursor: &mut Cursor<'src>, first: char, Ghost(start): Ghost<int>) -> (kind: TokenKind)
        requires
            old(cursor).wf(),
            is_cursor(old(cursor).text(), start),
            start < old(cursor).text().len(),
            first == char_at(old(cursor).text(), start),
            old(cursor).offset() == char_end(old(cursor).text(), start),
        ensures
            final(cursor).wf(),
            final(cursor).text() == old(cursor).text(),
            final(cursor).offset() == run_end(
                old(cursor).text(),
                old(cursor).offset(),
                CharClass::IdentContinue,
            ),
            kind == name_kind(old(cursor).text().subrange(start, final(cursor).offset())),
    {
        let mut keyword_buf = [0u8; MAX_KEYWORD_LEN];
        let mut filled: usize = 0;
        let mut keyword_candidate = is_lowercase(first);
        let ghost s = cursor.text();

        proof {
            lemma_char_step(s, start);
            lemma_ascii_char(s, start);
        }
        if keyword_candidate {
            keyword_buf[0] = first as u8;
            filled = 1;
            assert(keyword_buf@ =~= padded(s.subrange(start, cursor.offset())));
        } else {
            assert(!keywords::is_lower(s.subrange(start, cursor.offset())[0]));
        }

        // Consume the entire valid identifier. As long as the input
        // is a candidate for a keyword, spill it to keyword_buf.
        loop
            invariant
                cursor.wf(),
                cursor.text() == s,
                is_cursor(s, start),
                start < cursor.offset() <= s.len(),
                run_end(s, cursor.offset(), CharClass::IdentContinue) == run_end(
                    s,
                    old(cursor).offset(),
                    CharClass::IdentContinue,
                ),
                keyword_candidate ==> filled == cursor.offset() - start && filled
                    <= MAX_KEYWORD_LEN && keyword_buf@ == padded(
                    s.subrange(start, cursor.offset()),
                ) && all_lower(s.subrange(start, cursor.offset())),
                !keyword_candidate ==> !(cursor.offset() - start <= MAX_KEYWORD_LEN && all_lower(
                    s.subrange(start, cursor.offset()),
                )),
            ensures
                cursor.offset() == run_end(s, old(cursor).offset(), CharClass::IdentContinue),
            decreases s.len() - cursor.offset(),
        {
            proof {
                cursor.lemma_wf();
                if cursor.offset() < s.len() {
                    lemma_char_step(s, cursor.offset());
                    lemma_ascii_char(s, cursor.offset());
                }
            }
            let next = cursor.peek();
            let c = match next {
                Some(c) => c,
                None => {
                    break ;
                },
            };
            let ghost before = s.subrange(start, cursor.offset());
            let ghost after = s.subrange(start, char_end(s, cursor.offset()));
            let ghost at = cursor.offset() - start;
            if keyword_candidate && filled < MAX_KEYWORD_LEN && is_lowercase(c) {
                keyword_buf[filled] = c as u8;
                filled += 1;
                proof {
                    assert(after =~= before.push(s[cursor.offset()]));
                    assert(keyword_buf@ =~= padded(after));
                }
            } else if is_ident2(c) {
                proof {
                    if keyword_candidate && !(filled < MAX_KEYWORD_LEN) {
                        assert(after.len() > MAX_KEYWORD_LEN);
                    } else if keyword_candidate {
                        assert(after[at] == s[cursor.offset()]);
                        assert(!keywords::is_lower(after[at]));
                    } else {
                        if before.len() <= MAX_KEYWORD_LEN {
                            let i = choose|i: int|
                                0 <= i < before.len() && !keywords::is_lower(#[trigger] before[i]);
                            assert(after[i] == before[i]);
                        }
                    }
                }
                keyword_candidate = false;
            } else {
                break ;
            }
            cursor.bump();
        }

        // Try to match a potential keyword.
        if filled > 0 && keyword_candidate {
            return check_keyword(keyword_buf);
        }
        TokenKind::Identifier
    }

    /// Reads the next token from the source.
    fn scan(&mut self) -> (token: Token)
        requires
            old(self).wf(),
            !old(self).done,
        ensures
            final(self).wf(),
            final(self).source() == old(self).source(),
            !final(self).done,
            token_fits(old(self).source(), token),
            old(self).remaining() == if token.kind == TokenKind::Eof {
                seq![token]
            } else {
                seq![token] + final(self).remaining()
            },
            final(self).remaining().len() > 0,
    {
        let ghost s = self.cursor.text();
        let ghost from = self.cursor.offset();
        proof {
            self.cursor.lemma_wf();
            lemma_trivia(s, from);
        }

        // First, pass over whitespace and inject a semicolon, if necessary.
        // The cursor stays in front of the whitespace then: the next call
        // passes over it again and finds the previous token to be the
        // semicolon, so we don't get stuck in an infinite semicolon loop.
        let mut ahead = self.cursor;
        let newline = Self::whitespace(&mut ahead);
        if should_terminate_expr(self.previous) {
            let at = match newline {
                Some(at) => Some(at),
                None => if ahead.at_end() {
                    Some(ahead.position())
                } else {
                    None
                },
            };
            if let Some(at) = at {
                self.previous = TokenKind::Semicolon;
                proof {
                    SourceSpan::lemma_between(at as nat, at as nat);
                    lemma_lex_nonempty(s, from, TokenKind::Semicolon);
                    lemma_newline_cursor(s, from);
                }
                return Token { kind: TokenKind::Semicolon, span: SourceSpan::new(at, at) };
            }
        }
        let start = ahead.position();
        proof {
            ahead.lemma_wf();
            if start < s.len() {
                lemma_char_step(s, start as int);
                lemma_scan_token(s, start as int);
            }
        }

        // Consume the next non-whitespace character or report EOF if no
        // more input is available to us.
        let next = ahead.peek();
        let c = match next {
            Some(c) => c,
            None => {
                self.cursor = ahead;
                self.previous = TokenKind::Eof;
                proof {
                    SourceSpan::lemma_between(start as nat, start as nat);
                    lemma_lex_nonempty(s, start as int, TokenKind::Eof);
                }
                return Token { kind: TokenKind::Eof, span: SourceSpan::new(start, start) };
            },
        };
        ahead.bump();
        proof {
            ahead.lemma_wf();
            if ahead.offset() < s.len() {
                lemma_char_step(s, ahead.offset());
            }
            lemma_digit_run(s, ahead.offset());
            lemma_ascii_char(s, start as int);
        }

        let kind = if is_ident1(c) {
            Self::name(&mut ahead, c, Ghost(start as int))
        } else if is_digit(c) {
            Self::number(&mut ahead)
        } else if c == '(' {
            TokenKind::LeftParen
        } else if c == ')' {
            TokenKind::RightParen
        } else if c == '{' {
            TokenKind::LeftBrace
        } else if c == '}' {
            TokenKind::RightBrace
        } else if c == '[' {
            TokenKind::LeftBracket
        } else if c == ']' {
            TokenKind::RightBracket
        } else if c == '+' {
            Self::match2(&mut ahead, '=', TokenKind::PlusEq, '+', TokenKind::PlusPlus, TokenKind::Plus)
        } else if c == '-' {
            Self::match2(
                &mut ahead,
                '=',
                TokenKind::MinusEq,
                '-',
                TokenKind::MinusMinus,
                TokenKind::Minus,
            )
        } else if c == '*' {
            Self::match1(&mut ahead, '=', TokenKind::StarEq, TokenKind::Star)
        } else if c == '/' {
            let comment = ahead.peek();
            if comment == Some('*') {
                // Only a block comment that never ends is left standing
                // by `whitespace`: it is an error up to the end of input.
                ahead.finish();
                TokenKind::Error
            } else {
                Self::match1(&mut ahead, '=', TokenKind::SlashEq, TokenKind::Slash)
            }
        } else if c == '%' {
            Self::match1(&mut ahead, '=', TokenKind::PercentEq, TokenKind::Percent)
        } else if c == '&' {
            Self::match2(&mut ahead, '=', TokenKind::AndEq, '&', TokenKind::AndAnd, TokenKind::And)
        } else if c == '|' {
            Self::match2(&mut ahead, '=', TokenKind::OrEq, '|', TokenKind::OrOr, TokenKind::Or)
        } else if c == '^' {
            Self::match1(&mut ahead, '=', TokenKind::CaretEq, TokenKind::Caret)
        } else if c == '<' {
            if ahead.eat('<') {
                Self::match1(&mut ahead, '=', TokenKind::ShlEq, TokenKind::Shl)
            } else {
                Self::match1(&mut ahead, '=', TokenKind::LtEq, TokenKind::Lt)
            }
        } else if c == '>' {
            if ahead.eat('>') {
                Self::match1(&mut ahead, '=', TokenKind::ShrEq, TokenKind::Shr)
            } else {
                Self::match1(&mut ahead, '=', TokenKind::GtEq, TokenKind::Gt)
            }
        } else if c == '=' {
            Self::match1(&mut ahead, '=', TokenKind::EqEq, TokenKind::Eq)
        } else if c == '!' {
            Self::match1(&mut ahead, '=', TokenKind::BangEq, TokenKind::Bang)
        } else if c == '~' {
            TokenKind::Tilde
        } else if c == '.' {
            TokenKind::Dot
        } else if c == ':' {
            TokenKind::Colon
        } else if c == ',' {
            TokenKind::Comma
        } else if c == ';' {
            TokenKind::Semicolon
        } else if c == '"' {
            Self::string(&mut ahead)
        } else {
            TokenKind::Error
        };
        let end = ahead.position();
        self.cursor = ahead;
        self.previous = kind;
        proof {
            assert((kind, end as int) == scan_token(s, start as int));
            SourceSpan::lemma_between(start as nat, end as nat);
            lemma_lex_nonempty(s, end as int, kind);
            if kind == TokenKind::Number {
                let digits = s.subrange(start as int, end as int);
                let rest = s.subrange(start + 1, end as int);
                assert forall|i: int| 0 <= i < digits.len() implies '0' as u8
                    <= #[trigger] digits[i] <= '9' as u8 by {
                    if i > 0 {
                        assert(digits[i] == rest[i - 1]);
                    }
                }
            }
        }
        Token { kind, span: SourceSpan::new(start, end) }
    }

    /// Yields the next token of the source: every token in its turn, `Eof`
    /// as the last of them, and `None` from then on.
    pub fn next(&mut self) -> (r: Option<Token>)
        requires
            old(self).wf(),
        ensures
            final(self).wf(),
            final(self).source() == old(self).source(),
            match r {
                Some(token) => {
                    &&& old(self).remaining().len() > 0
                    &&& token == old(self).remaining()[0]
                    &&& final(self).remaining() == old(self).remaining().drop_first()
                    &&& token_fits(old(self).source(), token)
                    &&& token.kind == TokenKind::Eof <==> final(self).remaining().len() == 0
                },
                None => old(self).remaining().len() == 0 && final(self).remaining().len() == 0,
            },
    {
        if self.done {
            return None;
        }
        let token = self.scan();
        if token.kind == TokenKind::Eof {
            self.done = true;
        }
        proof {
            assert((seq![token] + final(self).remaining()).drop_first() =~= final(self).remaining());
            assert(seq![token].drop_first() =~= Seq::<Token>::empty());
        }
        Some(token)
    }
}

/// The lexer always has a token to yield, be it `Eof`.
pub proof fn lemma_lex_nonempty(s: Seq<u8>, pos: int, previous: TokenKind)
    requires
        is_cursor(s, pos),
    ensures
        lex_from(s, pos, previous).len() > 0,
{
}

} // verus!
