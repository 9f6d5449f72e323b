//! What holds of the token stream of every source text.

use vstd::prelude::*;
use vstd::string::*;
use vstd::utf8::*;

use super::cursor::{run_end, CharClass};
use super::keywords::{all_lower, is_lower, keyword_kind, lemma_keyword_bytes, MAX_KEYWORD_LEN};
use super::stream::{
    lemma_newline_cursor, lemma_scan_token, lemma_trivia, lex_from, scan_token, tokens, trivia,
};
use super::token::{terminates_expression, Token, TokenKind};
use crate::diagnostic::SourceSpan;
use crate::text::{
    char_at, char_end, is_cursor, lemma_ascii_char, lemma_char_step, lemma_cursor_boundary,
};

verus! {

/// The source as the tokens `toks` give it back, from the offset `from`
/// on: for each token that the lexer did not make up, the whitespace and
/// comments in front of it, then the text that its span covers.
pub open spec fn reassembled(s: Seq<u8>, toks: Seq<Token>, from: int) -> Seq<u8>
    decreases toks.len(),
{
    if toks.len() == 0 {
        Seq::empty()
    } else if toks[0].is_synthetic() {
        reassembled(s, toks.drop_first(), from)
    } else {
        s.subrange(from, trivia(s, from).end) + toks[0].span.bytes_of(s) + reassembled(
            s,
            toks.drop_first(),
            toks[0].span.end_offset() as int,
        )
    }
}

/// A text is UTF-8 from its start on if it is UTF-8 at all.
pub proof fn lemma_start_cursor(s: Seq<u8>)
    requires
        valid_utf8(s),
    ensures
        is_cursor(s, 0),
{
    assert(s.subrange(0, s.len() as int) =~= s);
}

/// What is scanned as a token is never the end of input.
proof fn lemma_scan_kind(s: Seq<u8>, pos: int)
    ensures
        scan_token(s, pos).0 != TokenKind::Eof,
        scan_token(s, pos).0 == TokenKind::Semicolon ==> scan_token(s, pos).1 == char_end(s, pos),
{
}

proof fn lemma_lossless_from(s: Seq<u8>, pos: int, previous: TokenKind)
    requires
        is_cursor(s, pos),
        s.len() <= u32::MAX,
    ensures
        reassembled(s, lex_from(s, pos, previous), pos) == s.subrange(pos, s.len() as int),
    decreases s.len() - pos, (if terminates_expression(previous) { 1int } else { 0int }),
{
    lemma_trivia(s, pos);
    let gap = trivia(s, pos);
    let all = lex_from(s, pos, previous);
    let end = s.len() as int;
    if terminates_expression(previous) && (gap.newline is Some || gap.end >= s.len()) {
        let at = match gap.newline {
            Some(at) => at,
            None => end,
        };
        let rest = lex_from(s, pos, TokenKind::Semicolon);
        SourceSpan::lemma_between(at as nat, at as nat);
        assert(all.drop_first() =~= rest);
        lemma_lossless_from(s, pos, TokenKind::Semicolon);
    } else if gap.end >= s.len() {
        SourceSpan::lemma_between(end as nat, end as nat);
        assert(all.drop_first() =~= Seq::<Token>::empty());
        assert(reassembled(s, all.drop_first(), end) =~= Seq::<u8>::empty());
        assert(s.subrange(pos, end) + s.subrange(end, end) + Seq::<u8>::empty() =~= s.subrange(
            pos,
            end,
        ));
    } else {
        lemma_scan_token(s, gap.end);
        lemma_scan_kind(s, gap.end);
        let (kind, stop) = scan_token(s, gap.end);
        let rest = lex_from(s, stop, kind);
        SourceSpan::lemma_between(gap.end as nat, stop as nat);
        assert(all.drop_first() =~= rest);
        lemma_lossless_from(s, stop, kind);
        assert(s.subrange(pos, gap.end) + s.subrange(gap.end, stop) + s.subrange(stop, end)
            =~= s.subrange(pos, end));
    }
}

/// Lossless spans: whatever the source, putting the text of every token
/// that the lexer did not make up behind the whitespace and comments that
/// precede it, in the order of the tokens, gives the source back byte for
/// byte.
pub proof fn lemma_lossless(s: Seq<u8>)
    requires
        valid_utf8(s),
        s.len() <= u32::MAX,
    ensures
        reassembled(s, tokens(s), 0) == s,
{
    lemma_start_cursor(s);
    lemma_lossless_from(s, 0, TokenKind::Eof);
    assert(s.subrange(0, s.len() as int) =~= s);
}

proof fn lemma_eof_from(s: Seq<u8>, pos: int, previous: TokenKind)
    requires
        is_cursor(s, pos),
    ensures
        lex_from(s, pos, previous).len() > 0,
        lex_from(s, pos, previous).last().kind == TokenKind::Eof,
        forall|i: int|
            0 <= i < lex_from(s, pos, previous).len() - 1 ==> (#[trigger] lex_from(
                s,
                pos,
                previous,
            )[i]).kind != TokenKind::Eof,
    decreases s.len() - pos, (if terminates_expression(previous) { 1int } else { 0int }),
{
    lemma_trivia(s, pos);
    let gap = trivia(s, pos);
    let all = lex_from(s, pos, previous);
    if terminates_expression(previous) && (gap.newline is Some || gap.end >= s.len()) {
        lemma_eof_from(s, pos, TokenKind::Semicolon);
        let rest = lex_from(s, pos, TokenKind::Semicolon);
        assert forall|i: int| 0 <= i < all.len() - 1 implies (#[trigger] all[i]).kind
            != TokenKind::Eof by {
            if i > 0 {
                assert(all[i] == rest[i - 1]);
            }
        }
        assert(all.last() == rest.last());
    } else if gap.end >= s.len() {
    } else {
        lemma_scan_token(s, gap.end);
        lemma_scan_kind(s, gap.end);
        let (kind, stop) = scan_token(s, gap.end);
        lemma_eof_from(s, stop, kind);
        let rest = lex_from(s, stop, kind);
        assert forall|i: int| 0 <= i < all.len() - 1 implies (#[trigger] all[i]).kind
            != TokenKind::Eof by {
            if i > 0 {
                assert(all[i] == rest[i - 1]);
            }
        }
        assert(all.last() == rest.last());
    }
}

/// Whatever the source, its tokens end with `Eof`, and `Eof` comes only
/// there.
pub proof fn lemma_eof_is_last(s: Seq<u8>)
    requires
        valid_utf8(s),
    ensures
        tokens(s).len() > 0,
        tokens(s).last().kind == TokenKind::Eof,
        forall|i: int| 0 <= i < tokens(s).len() - 1 ==> (#[trigger] tokens(s)[i]).kind != TokenKind::Eof,
{
    lemma_start_cursor(s);
    lemma_eof_from(s, 0, TokenKind::Eof);
}

proof fn lemma_spans_from(s: Seq<u8>, pos: int, previous: TokenKind)
    requires
        valid_utf8(s),
        is_cursor(s, pos),
        s.len() <= u32::MAX,
    ensures
        forall|i: int|
            0 <= i < lex_from(s, pos, previous).len() ==> (#[trigger] lex_from(
                s,
                pos,
                previous,
            )[i]).span.lies_in(s),
    decreases s.len() - pos, (if terminates_expression(previous) { 1int } else { 0int }),
{
    lemma_trivia(s, pos);
    lemma_newline_cursor(s, pos);
    let gap = trivia(s, pos);
    let all = lex_from(s, pos, previous);
    let end = s.len() as int;
    if terminates_expression(previous) && (gap.newline is Some || gap.end >= s.len()) {
        let at = match gap.newline {
            Some(at) => at,
            None => end,
        };
        SourceSpan::lemma_between(at as nat, at as nat);
        lemma_cursor_boundary(s, at);
        lemma_spans_from(s, pos, TokenKind::Semicolon);
        let rest = lex_from(s, pos, TokenKind::Semicolon);
        assert forall|i: int| 0 <= i < all.len() implies (#[trigger] all[i]).span.lies_in(s) by {
            if i > 0 {
                assert(all[i] == rest[i - 1]);
            }
        }
    } else if gap.end >= s.len() {
        SourceSpan::lemma_between(end as nat, end as nat);
        lemma_cursor_boundary(s, end);
    } else {
        lemma_scan_token(s, gap.end);
        let (kind, stop) = scan_token(s, gap.end);
        SourceSpan::lemma_between(gap.end as nat, stop as nat);
        lemma_cursor_boundary(s, gap.end);
        lemma_cursor_boundary(s, stop);
        lemma_spans_from(s, stop, kind);
        let rest = lex_from(s, stop, kind);
        assert forall|i: int| 0 <= i < all.len() implies (#[trigger] all[i]).span.lies_in(s) by {
            if i > 0 {
                assert(all[i] == rest[i - 1]);
            }
        }
    }
}

/// Whatever the source, the span of each of its tokens lies in it, between
/// two characters at both ends: its text can be had.
pub proof fn lemma_spans_lie_in(s: Seq<u8>)
    requires
        valid_utf8(s),
        s.len() <= u32::MAX,
    ensures
        forall|i: int| 0 <= i < tokens(s).len() ==> (#[trigger] tokens(s)[i]).span.lies_in(s),
{
    lemma_start_cursor(s);
    lemma_spans_from(s, 0, TokenKind::Eof);
}

/// Bytes of ASCII are UTF-8 from every offset on.
pub proof fn lemma_ascii_cursor(s: Seq<u8>, pos: int)
    requires
        0 <= pos <= s.len(),
        forall|i: int| 0 <= i < s.len() ==> #[trigger] s[i] < 0x80,
    ensures
        is_cursor(s, pos),
    decreases s.len() - pos,
{
    let tail = s.subrange(pos, s.len() as int);
    if pos < s.len() {
        lemma_ascii_cursor(s, pos + 1);
        let b = tail[0];
        assert(b == s[pos]);
        assert((b & 0x7f) as u32 == b as u32) by (bit_vector)
            requires
                b < 0x80,
        ;
        assert(pop_first_scalar(tail) =~= s.subrange(pos + 1, s.len() as int));
    }
}

/// A word of lowercase letters is one run of identifier characters.
proof fn lemma_lower_run(word: Seq<u8>, pos: int)
    requires
        0 <= pos <= word.len(),
        all_lower(word),
    ensures
        run_end(word, pos, CharClass::IdentContinue) == word.len(),
    decreases word.len() - pos,
{
    lemma_ascii_cursor(word, pos);
    if pos < word.len() {
        assert(is_lower(word[pos]));
        lemma_ascii_char(word, pos);
        lemma_char_step(word, pos);
        lemma_lower_run(word, pos + 1);
        let c = char_at(word, pos);
        assert(c as u8 == word[pos]);
        assert('a' <= c <= 'z');
    }
}

/// Keyword exactness: a source that is one word of at most eight lowercase
/// ASCII letters starts with a token over the whole word, of the kind of
/// the reserved word that it spells, and of the kind `Identifier` where it
/// spells none.
pub proof fn lemma_keyword_exactness(word: Seq<u8>)
    requires
        1 <= word.len() <= MAX_KEYWORD_LEN,
        all_lower(word),
    ensures
        tokens(word)[0] == Token::over(keyword_kind(word), 0, word.len() as int),
{
    lemma_ascii_cursor(word, 0);
    lemma_ascii_cursor(word, 1);
    assert(is_lower(word[0]));
    lemma_ascii_char(word, 0);
    lemma_char_step(word, 0);
    let c = char_at(word, 0);
    assert(c as u8 == word[0]);
    assert('a' <= c <= 'z');
    assert(trivia(word, 0).end == 0 && trivia(word, 0).newline is None);
    lemma_lower_run(word, 1);
    assert(word.subrange(0, word.len() as int) =~= word);
    assert(scan_token(word, 0) == (keyword_kind(word), word.len() as int));
}

/// Each reserved word spells its own kind, and no other.
pub proof fn lemma_keyword_table()
    ensures
        keyword_kind("break".spec_bytes()) == TokenKind::Break,
        keyword_kind("const".spec_bytes()) == TokenKind::Const,
        keyword_kind("continue".spec_bytes()) == TokenKind::Continue,
        keyword_kind("else".spec_bytes()) == TokenKind::Else,
        keyword_kind("enum".spec_bytes()) == TokenKind::Enum,
        keyword_kind("false".spec_bytes()) == TokenKind::False,
        keyword_kind("for".spec_bytes()) == TokenKind::For,
        keyword_kind("fn".spec_bytes()) == TokenKind::Fn,
        keyword_kind("if".spec_bytes()) == TokenKind::If,
        keyword_kind("let".spec_bytes()) == TokenKind::Let,
        keyword_kind("mut".spec_bytes()) == TokenKind::Mut,
        keyword_kind("pub".spec_bytes()) == TokenKind::Pub,
        keyword_kind("return".spec_bytes()) == TokenKind::Return,
        keyword_kind("true".spec_bytes()) == TokenKind::True,
        keyword_kind("while".spec_bytes()) == TokenKind::While,
{
    lemma_keyword_bytes();
    let first = |w: Seq<u8>| w[0];
    assert(first("break".spec_bytes()) == 98);
    assert(first("const".spec_bytes()) == 99);
    assert(first("continue".spec_bytes()) == 99);
    assert(first("else".spec_bytes()) == 101);
    assert(first("enum".spec_bytes()) == 101);
    assert(first("false".spec_bytes()) == 102);
    assert(first("for".spec_bytes()) == 102);
    assert(first("fn".spec_bytes()) == 102);
    assert(first("if".spec_bytes()) == 105);
    assert(first("let".spec_bytes()) == 108);
    assert(first("mut".spec_bytes()) == 109);
    assert(first("pub".spec_bytes()) == 112);
    assert(first("return".spec_bytes()) == 114);
    assert(first("true".spec_bytes()) == 116);
    assert(first("while".spec_bytes()) == 119);
    assert("const".spec_bytes().len() == 5 && "continue".spec_bytes().len() == 8);
    assert("else".spec_bytes()[1] == 108 && "enum".spec_bytes()[1] == 110);
    assert("false".spec_bytes().len() == 5 && "for".spec_bytes().len() == 3 && "fn".spec_bytes().len()
        == 2);
}

} // verus!
