//! The token stream of a source text, as a function of its bytes.
//!
//! Everything here is ghost code: [`tokens`] is what the lexer yields
//! for a text, one token after the other.

use vstd::prelude::*;
use vstd::utf8::*;

use super::classes::{is_ascii_digit, is_ident_start, is_pattern_white_space};
use super::cursor::{lemma_run_end, run_end, CharClass};
use crate::text::{char_at, char_end, follows, is_cursor, lemma_ascii_char, lemma_char_step};
use super::keywords::{all_lower, keyword_kind, MAX_KEYWORD_LEN};
use super::token::{terminates_expression, Token, TokenKind};

verus! {

/// What the lexer passes over between two tokens.
pub struct Trivia {
    /// The offset at which whitespace and comments end.
    pub end: int,
    /// The offset of the first line feed outside comments, if there is one.
    pub newline: Option<int>,
}

/// The offset behind the first `*/` at or after `pos`, where a block
/// comment that holds `pos` ends; `None` where the text ends first.
pub open spec fn comment_end(s: Seq<u8>, pos: int) -> Option<int>
    decreases s.len() - pos,
    when is_cursor(s, pos)
{
    if pos >= s.len() {
        None
    } else {
        proof {
            lemma_char_step(s, pos);
        }
        let next = char_end(s, pos);
        if char_at(s, pos) == '*' && follows(s, next, '/') {
            Some(char_end(s, next))
        } else {
            comment_end(s, next)
        }
    }
}

/// The whitespace and comments that start at `pos`.
///
/// A line comment runs up to the next line feed, which is whitespace of
/// its own. A block comment that never ends is no trivia: the run stops
/// in front of it.
pub open spec fn trivia(s: Seq<u8>, pos: int) -> Trivia
    decreases s.len() - pos,
    when is_cursor(s, pos)
{
    if pos >= s.len() {
        Trivia { end: pos, newline: None }
    } else {
        proof {
            lemma_char_step(s, pos);
        }
        let c = char_at(s, pos);
        let next = char_end(s, pos);
        if c == '\n' {
            Trivia { end: trivia(s, next).end, newline: Some(pos) }
        } else if is_pattern_white_space(c) {
            trivia(s, next)
        } else if c == '/' && follows(s, next, '/') {
            proof {
                lemma_char_step(s, next);
                lemma_run_end(s, char_end(s, next), CharClass::InLine);
            }
            trivia(s, run_end(s, char_end(s, next), CharClass::InLine))
        } else if c == '/' && follows(s, next, '*') {
            proof {
                lemma_char_step(s, next);
                lemma_comment_end(s, char_end(s, next));
            }
            match comment_end(s, char_end(s, next)) {
                Some(end) => trivia(s, end),
                None => Trivia { end: pos, newline: None },
            }
        } else {
            Trivia { end: pos, newline: None }
        }
    }
}

/// A block comment ends inside the text, between two characters.
pub proof fn lemma_comment_end(s: Seq<u8>, pos: int)
    requires
        is_cursor(s, pos),
    ensures
        comment_end(s, pos) matches Some(end) ==> pos < end <= s.len() && is_cursor(s, end),
    decreases s.len() - pos,
{
    if pos < s.len() {
        lemma_char_step(s, pos);
        let next = char_end(s, pos);
        if char_at(s, pos) == '*' && follows(s, next, '/') {
            lemma_char_step(s, next);
        } else {
            lemma_comment_end(s, next);
        }
    }
}

/// Whitespace and comments end inside the text, between two characters,
/// and behind their first line feed.
pub proof fn lemma_trivia(s: Seq<u8>, pos: int)
    requires
        is_cursor(s, pos),
    ensures
        pos <= trivia(s, pos).end <= s.len(),
        is_cursor(s, trivia(s, pos).end),
        trivia(s, pos).newline matches Some(at) ==> pos <= at < trivia(s, pos).end,
    decreases s.len() - pos,
{
    if pos < s.len() {
        lemma_char_step(s, pos);
        let c = char_at(s, pos);
        let next = char_end(s, pos);
        if c == '\n' {
            lemma_trivia(s, next);
        } else if is_pattern_white_space(c) {
            lemma_trivia(s, next);
        } else if c == '/' && follows(s, next, '/') {
            lemma_char_step(s, next);
            lemma_run_end(s, char_end(s, next), CharClass::InLine);
            lemma_trivia(s, run_end(s, char_end(s, next), CharClass::InLine));
        } else if c == '/' && follows(s, next, '*') {
            lemma_char_step(s, next);
            lemma_comment_end(s, char_end(s, next));
            match comment_end(s, char_end(s, next)) {
                Some(end) => {
                    lemma_trivia(s, end);
                },
                None => {},
            }
        }
    }
}

/// The first line feed of a run of whitespace lies between two characters.
pub proof fn lemma_newline_cursor(s: Seq<u8>, pos: int)
    requires
        is_cursor(s, pos),
    ensures
        trivia(s, pos).newline matches Some(at) ==> is_cursor(s, at),
        is_cursor(s, s.len() as int),
    decreases s.len() - pos,
{
    assert(s.subrange(s.len() as int, s.len() as int) =~= Seq::<u8>::empty());
    if pos < s.len() {
        lemma_char_step(s, pos);
        let c = char_at(s, pos);
        let next = char_end(s, pos);
        if c == '\n' {
        } else if is_pattern_white_space(c) {
            lemma_newline_cursor(s, next);
        } else if c == '/' && follows(s, next, '/') {
            lemma_char_step(s, next);
            lemma_run_end(s, char_end(s, next), CharClass::InLine);
            lemma_newline_cursor(s, run_end(s, char_end(s, next), CharClass::InLine));
        } else if c == '/' && follows(s, next, '*') {
            lemma_char_step(s, next);
            lemma_comment_end(s, char_end(s, next));
            match comment_end(s, char_end(s, next)) {
                Some(end) => {
                    lemma_newline_cursor(s, end);
                },
                None => {},
            }
        }
    }
}

/// The kind of a name: a reserved word where the name spells one in at most
/// eight lowercase ASCII letters, an identifier otherwise.
pub open spec fn name_kind(word: Seq<u8>) -> TokenKind {
    if word.len() <= MAX_KEYWORD_LEN && all_lower(word) {
        keyword_kind(word)
    } else {
        TokenKind::Identifier
    }
}

/// One character of lookahead: `a` with the character consumed where `c`
/// stands at `pos`, `b` with nothing consumed otherwise.
pub open spec fn match1(s: Seq<u8>, pos: int, c: char, a: TokenKind, b: TokenKind) -> (
    TokenKind,
    int,
) {
    if follows(s, pos, c) {
        (a, char_end(s, pos))
    } else {
        (b, pos)
    }
}

/// One character of lookahead with two candidates.
pub open spec fn match2(
    s: Seq<u8>,
    pos: int,
    c1: char,
    a: TokenKind,
    c2: char,
    b: TokenKind,
    c: TokenKind,
) -> (TokenKind, int) {
    if follows(s, pos, c1) {
        (a, char_end(s, pos))
    } else if follows(s, pos, c2) {
        (b, char_end(s, pos))
    } else {
        (c, pos)
    }
}

/// The kind and the end of the token that starts at `pos`, where a
/// character that is no trivia stands.
pub open spec fn scan_token(s: Seq<u8>, pos: int) -> (TokenKind, int) {
    let c = char_at(s, pos);
    let next = char_end(s, pos);
    if is_ident_start(c) {
        let end = run_end(s, next, CharClass::IdentContinue);
        (name_kind(s.subrange(pos, end)), end)
    } else if is_ascii_digit(c) {
        (TokenKind::Number, run_end(s, next, CharClass::Digit))
    } else if c == '(' {
        (TokenKind::LeftParen, next)
    } else if c == ')' {
        (TokenKind::RightParen, next)
    } else if c == '{' {
        (TokenKind::LeftBrace, next)
    } else if c == '}' {
        (TokenKind::RightBrace, next)
    } else if c == '[' {
        (TokenKind::LeftBracket, next)
    } else if c == ']' {
        (TokenKind::RightBracket, next)
    } else if c == '+' {
        match2(s, next, '=', TokenKind::PlusEq, '+', TokenKind::PlusPlus, TokenKind::Plus)
    } else if c == '-' {
        match2(s, next, '=', TokenKind::MinusEq, '-', TokenKind::MinusMinus, TokenKind::Minus)
    } else if c == '*' {
        match1(s, next, '=', TokenKind::StarEq, TokenKind::Star)
    } else if c == '/' {
        if follows(s, next, '*') {
            // A block comment that never ends.
            (TokenKind::Error, s.len() as int)
        } else {
            match1(s, next, '=', TokenKind::SlashEq, TokenKind::Slash)
        }
    } else if c == '%' {
        match1(s, next, '=', TokenKind::PercentEq, TokenKind::Percent)
    } else if c == '&' {
        match2(s, next, '=', TokenKind::AndEq, '&', TokenKind::AndAnd, TokenKind::And)
    } else if c == '|' {
        match2(s, next, '=', TokenKind::OrEq, '|', TokenKind::OrOr, TokenKind::Or)
    } else if c == '^' {
        match1(s, next, '=', TokenKind::CaretEq, TokenKind::Caret)
    } else if c == '<' {
        if follows(s, next, '<') {
            match1(s, char_end(s, next), '=', TokenKind::ShlEq, TokenKind::Shl)
        } else {
            match1(s, next, '=', TokenKind::LtEq, TokenKind::Lt)
        }
    } else if c == '>' {
        if follows(s, next, '>') {
            match1(s, char_end(s, next), '=', TokenKind::ShrEq, TokenKind::Shr)
        } else {
            match1(s, next, '=', TokenKind::GtEq, TokenKind::Gt)
        }
    } else if c == '=' {
        match1(s, next, '=', TokenKind::EqEq, TokenKind::Eq)
    } else if c == '!' {
        match1(s, next, '=', TokenKind::BangEq, TokenKind::Bang)
    } else if c == '~' {
        (TokenKind::Tilde, next)
    } else if c == '.' {
        (TokenKind::Dot, next)
    } else if c == ':' {
        (TokenKind::Colon, next)
    } else if c == ',' {
        (TokenKind::Comma, next)
    } else if c == ';' {
        (TokenKind::Semicolon, next)
    } else if c == '"' {
        let quote = run_end(s, next, CharClass::InString);
        if quote < s.len() {
            (TokenKind::String, char_end(s, quote))
        } else {
            // A string that never ends.
            (TokenKind::Error, quote)
        }
    } else {
        (TokenKind::Error, next)
    }
}

/// The lookahead of [`match1`] ends inside the text, between two
/// characters.
pub proof fn lemma_match1(s: Seq<u8>, pos: int, c: char, a: TokenKind, b: TokenKind)
    requires
        is_cursor(s, pos),
    ensures
        pos <= match1(s, pos, c, a, b).1 <= s.len(),
        is_cursor(s, match1(s, pos, c, a, b).1),
{
    if pos < s.len() {
        lemma_char_step(s, pos);
    }
}

/// A token takes at least one byte and ends inside the text, between two
/// characters.
pub proof fn lemma_scan_token(s: Seq<u8>, pos: int)
    requires
        is_cursor(s, pos),
        pos < s.len(),
    ensures
        pos < scan_token(s, pos).1 <= s.len(),
        is_cursor(s, scan_token(s, pos).1),
{
    lemma_char_step(s, pos);
    let c = char_at(s, pos);
    let next = char_end(s, pos);
    lemma_run_end(s, next, CharClass::IdentContinue);
    lemma_run_end(s, next, CharClass::Digit);
    lemma_run_end(s, next, CharClass::InString);
    let quote = run_end(s, next, CharClass::InString);
    if quote < s.len() {
        lemma_char_step(s, quote);
    }
    if next < s.len() {
        lemma_char_step(s, next);
        lemma_match1(s, char_end(s, next), '=', TokenKind::ShlEq, TokenKind::Shl);
        lemma_match1(s, char_end(s, next), '=', TokenKind::ShrEq, TokenKind::Shr);
    }
    assert(is_cursor(s, s.len() as int)) by {
        assert(s.subrange(s.len() as int, s.len() as int) =~= Seq::<u8>::empty());
    }
    if next < s.len() {
        lemma_char_step(s, next);
    }
}

/// Whether `bytes` are the codes of ASCII digits.
pub open spec fn all_digits(bytes: Seq<u8>) -> bool {
    forall|i: int| 0 <= i < bytes.len() ==> '0' as u8 <= #[trigger] bytes[i] <= '9' as u8
}

/// Whether the span of `t` lies in the text `s`, between characters, and
/// covers what a token of its kind is made of: for a number, digits.
pub open spec fn token_fits(s: Seq<u8>, t: Token) -> bool {
    let start = t.span.start_offset() as int;
    let end = t.span.end_offset() as int;
    &&& start <= end <= s.len()
    &&& is_cursor(s, start)
    &&& is_cursor(s, end)
    &&& t.kind == TokenKind::Number ==> start < end && all_digits(s.subrange(start, end))
}

/// A run of digits is made of the bytes `0` to `9`.
pub proof fn lemma_digit_run(s: Seq<u8>, pos: int)
    requires
        is_cursor(s, pos),
    ensures
        all_digits(s.subrange(pos, run_end(s, pos, CharClass::Digit))),
    decreases s.len() - pos,
{
    lemma_run_end(s, pos, CharClass::Digit);
    let end = run_end(s, pos, CharClass::Digit);
    if pos < s.len() && is_ascii_digit(char_at(s, pos)) {
        lemma_char_step(s, pos);
        lemma_ascii_char(s, pos);
        lemma_digit_run(s, pos + 1);
        let rest = s.subrange(pos + 1, end);
        assert forall|i: int| 0 <= i < end - pos implies '0' as u8 <= #[trigger] s.subrange(
            pos,
            end,
        )[i] <= '9' as u8 by {
            if i > 0 {
                assert(s.subrange(pos, end)[i] == rest[i - 1]);
            }
        }
    }
}

/// The tokens that the lexer yields from `pos` on, after a token of kind
/// `previous`.
///
/// Whitespace and comments are passed over. Where they hold a line feed, or
/// reach the end of the text, and `previous` ends an expression, a
/// semicolon without text comes first: at the first such line feed, or at
/// the end of the text. The token `Eof` is the last one.
pub open spec fn lex_from(s: Seq<u8>, pos: int, previous: TokenKind) -> Seq<Token>
    decreases s.len() - pos, (if terminates_expression(previous) { 1int } else { 0int }),
    when is_cursor(s, pos)
{
    let gap = trivia(s, pos);
    if terminates_expression(previous) && (gap.newline is Some || gap.end >= s.len()) {
        let at = match gap.newline {
            Some(at) => at,
            None => s.len() as int,
        };
        seq![Token::over(TokenKind::Semicolon, at, at)] + lex_from(s, pos, TokenKind::Semicolon)
    } else if gap.end >= s.len() {
        seq![Token::over(TokenKind::Eof, s.len() as int, s.len() as int)]
    } else {
        proof {
            lemma_trivia(s, pos);
            lemma_scan_token(s, gap.end);
        }
        let (kind, end) = scan_token(s, gap.end);
        seq![Token::over(kind, gap.end, end)] + lex_from(s, end, kind)
    }
}

/// The tokens of the text `s`.
pub open spec fn tokens(s: Seq<u8>) -> Seq<Token> {
    lex_from(s, 0, TokenKind::Eof)
}

} // verus!
