use std::ops::Range;

use serqlane::diagnostic::SourceSpan;
use serqlane::lexer::{should_terminate_expr, Lexer, Token, TokenKind};

fn lex(source: &str) -> Vec<Token> {
    let mut lexer = Lexer::new(source).unwrap();
    let mut tokens = Vec::new();
    while let Some(token) = lexer.next() {
        tokens.push(token);
    }
    assert_eq!(lexer.next(), None);
    tokens
}

fn kinds(source: &str) -> Vec<TokenKind> {
    lex(source).into_iter().map(|t| t.kind()).collect()
}

fn spans(source: &str) -> Vec<(u32, u32)> {
    lex(source)
        .into_iter()
        .map(|t| {
            let range = Range::<u32>::from(t.span());
            (range.start, range.end)
        })
        .collect()
}

#[test]
fn empty_source_is_eof() {
    assert_eq!(kinds(""), vec![TokenKind::Eof]);
    assert_eq!(spans(""), vec![(0, 0)]);
}

#[test]
fn semicolon_is_injected_at_newline() {
    assert_eq!(
        kinds("x\n"),
        vec![TokenKind::Identifier, TokenKind::Semicolon, TokenKind::Eof]
    );
    assert_eq!(spans("x\n"), vec![(0, 1), (1, 1), (2, 2)]);
}

#[test]
fn no_semicolon_after_operator() {
    assert_eq!(
        kinds("x+\n"),
        vec![TokenKind::Identifier, TokenKind::Plus, TokenKind::Eof]
    );
}

#[test]
fn semicolon_is_injected_at_end_of_input() {
    assert_eq!(
        kinds("x"),
        vec![TokenKind::Identifier, TokenKind::Semicolon, TokenKind::Eof]
    );
    assert_eq!(spans("x"), vec![(0, 1), (1, 1), (1, 1)]);
}

#[test]
fn one_semicolon_per_whitespace_run() {
    assert_eq!(
        kinds("x\n\n  \n y"),
        vec![
            TokenKind::Identifier,
            TokenKind::Semicolon,
            TokenKind::Identifier,
            TokenKind::Semicolon,
            TokenKind::Eof
        ]
    );
    assert_eq!(
        spans("x\n\n  \n y"),
        vec![(0, 1), (1, 1), (7, 8), (8, 8), (8, 8)]
    );
}

#[test]
fn module_example_stream() {
    assert_eq!(
        kinds("mut x = 5"),
        vec![
            TokenKind::Mut,
            TokenKind::Identifier,
            TokenKind::Eq,
            TokenKind::Number,
            TokenKind::Semicolon,
            TokenKind::Eof
        ]
    );
}

#[test]
fn every_keyword_has_its_kind() {
    let table = [
        ("break", TokenKind::Break),
        ("const", TokenKind::Const),
        ("continue", TokenKind::Continue),
        ("else", TokenKind::Else),
        ("enum", TokenKind::Enum),
        ("false", TokenKind::False),
        ("for", TokenKind::For),
        ("fn", TokenKind::Fn),
        ("if", TokenKind::If),
        ("let", TokenKind::Let),
        ("mut", TokenKind::Mut),
        ("pub", TokenKind::Pub),
        ("return", TokenKind::Return),
        ("true", TokenKind::True),
        ("while", TokenKind::While),
    ];
    for (word, kind) in table {
        let tokens = lex(word);
        assert_eq!(tokens[0].kind(), kind, "{}", word);
        assert_eq!(tokens[0].span(), SourceSpan::new(0, word.len() as u32));
    }
}

#[test]
fn near_keywords_are_identifiers() {
    for word in [
        "fnx", "fna", "f", "fo", "fore", "brea", "breaks", "continu", "continued", "i", "iff",
        "lets", "pubs", "whil", "truee", "elsee", "enumm", "returns", "consts", "abcdefgh",
        "abcdefghi", "Break", "fN", "_fn", "fn_", "fn1", "b", "c", "e",
    ] {
        let tokens = lex(word);
        assert_eq!(tokens[0].kind(), TokenKind::Identifier, "{}", word);
        assert_eq!(tokens[0].span(), SourceSpan::new(0, word.len() as u32));
    }
}

#[test]
fn short_lowercase_words_are_keywords_only_when_reserved() {
    let reserved = [
        "break", "const", "continue", "else", "enum", "false", "for", "fn", "if", "let", "mut",
        "pub", "return", "true", "while",
    ];
    // Every lowercase word of up to three letters.
    let letters: Vec<char> = ('a'..='z').collect();
    let mut words: Vec<String> = Vec::new();
    for a in &letters {
        words.push(format!("{}", a));
        for b in &letters {
            words.push(format!("{}{}", a, b));
            for c in &letters {
                words.push(format!("{}{}{}", a, b, c));
            }
        }
    }
    for word in words {
        let kind = lex(&word)[0].kind();
        if reserved.contains(&word.as_str()) {
            assert!(kind != TokenKind::Identifier, "{}", word);
        } else {
            assert_eq!(kind, TokenKind::Identifier, "{}", word);
        }
    }
}

#[test]
fn operators_take_the_longest_match() {
    assert_eq!(
        kinds("< <= << <<= > >= >> >>="),
        vec![
            TokenKind::Lt,
            TokenKind::LtEq,
            TokenKind::Shl,
            TokenKind::ShlEq,
            TokenKind::Gt,
            TokenKind::GtEq,
            TokenKind::Shr,
            TokenKind::ShrEq,
            TokenKind::Eof
        ]
    );
    assert_eq!(
        kinds("+ += ++ - -= -- * *= / /= % %="),
        vec![
            TokenKind::Plus,
            TokenKind::PlusEq,
            TokenKind::PlusPlus,
            TokenKind::Minus,
            TokenKind::MinusEq,
            TokenKind::MinusMinus,
            TokenKind::Star,
            TokenKind::StarEq,
            TokenKind::Slash,
            TokenKind::SlashEq,
            TokenKind::Percent,
            TokenKind::PercentEq,
            TokenKind::Eof
        ]
    );
    assert_eq!(
        kinds("& &= && | |= || ^ ^= = == ! !="),
        vec![
            TokenKind::And,
            TokenKind::AndEq,
            TokenKind::AndAnd,
            TokenKind::Or,
            TokenKind::OrEq,
            TokenKind::OrOr,
            TokenKind::Caret,
            TokenKind::CaretEq,
            TokenKind::Eq,
            TokenKind::EqEq,
            TokenKind::Bang,
            TokenKind::BangEq,
            TokenKind::Eof
        ]
    );
}

#[test]
fn punctuation_matches_directly() {
    assert_eq!(
        kinds("( { [ . : , ; ~"),
        vec![
            TokenKind::LeftParen,
            TokenKind::LeftBrace,
            TokenKind::LeftBracket,
            TokenKind::Dot,
            TokenKind::Colon,
            TokenKind::Comma,
            TokenKind::Semicolon,
            TokenKind::Tilde,
            TokenKind::Eof
        ]
    );
    assert_eq!(
        kinds(") } ]"),
        vec![
            TokenKind::RightParen,
            TokenKind::RightBrace,
            TokenKind::RightBracket,
            TokenKind::Semicolon,
            TokenKind::Eof
        ]
    );
}

#[test]
fn lone_slash_is_an_operator() {
    assert_eq!(
        kinds("a / b"),
        vec![
            TokenKind::Identifier,
            TokenKind::Slash,
            TokenKind::Identifier,
            TokenKind::Semicolon,
            TokenKind::Eof
        ]
    );
}

#[test]
fn comments_are_passed_over() {
    assert_eq!(
        kinds("1 // one\n+ /* two\n */ 2"),
        vec![
            TokenKind::Number,
            TokenKind::Semicolon,
            TokenKind::Plus,
            TokenKind::Number,
            TokenKind::Semicolon,
            TokenKind::Eof
        ]
    );
    // A line feed inside a block comment ends no expression.
    assert_eq!(
        kinds("x /* \n */ y"),
        vec![
            TokenKind::Identifier,
            TokenKind::Identifier,
            TokenKind::Semicolon,
            TokenKind::Eof
        ]
    );
    assert_eq!(kinds("/*/ */"), vec![TokenKind::Eof]);
}

#[test]
fn unterminated_comment_is_one_error() {
    assert_eq!(
        kinds("x /* never"),
        vec![TokenKind::Identifier, TokenKind::Error, TokenKind::Eof]
    );
    assert_eq!(spans("x /* never"), vec![(0, 1), (2, 10), (10, 10)]);
}

#[test]
fn strings() {
    assert_eq!(
        kinds("\"abc\" \"\""),
        vec![
            TokenKind::String,
            TokenKind::String,
            TokenKind::Semicolon,
            TokenKind::Eof
        ]
    );
    assert_eq!(spans("\"abc\" \"\""), vec![(0, 5), (6, 8), (8, 8), (8, 8)]);
}

#[test]
fn unterminated_string_is_one_error() {
    assert_eq!(kinds("\"abc"), vec![TokenKind::Error, TokenKind::Eof]);
    assert_eq!(spans("\"abc"), vec![(0, 4), (4, 4)]);
}

#[test]
fn scanning_continues_after_an_error() {
    assert_eq!(
        kinds("a $ b # 1"),
        vec![
            TokenKind::Identifier,
            TokenKind::Error,
            TokenKind::Identifier,
            TokenKind::Error,
            TokenKind::Number,
            TokenKind::Semicolon,
            TokenKind::Eof
        ]
    );
    assert_eq!(
        spans("a $ b # 1"),
        vec![(0, 1), (2, 3), (4, 5), (6, 7), (8, 9), (9, 9), (9, 9)]
    );
}

#[test]
fn unrecognized_character_covers_its_bytes() {
    // U+20AC takes three bytes, U+0000 one.
    assert_eq!(kinds("\u{20ac}"), vec![TokenKind::Error, TokenKind::Eof]);
    assert_eq!(spans("\u{20ac}"), vec![(0, 3), (3, 3)]);
    assert_eq!(
        kinds("\0\0"),
        vec![TokenKind::Error, TokenKind::Error, TokenKind::Eof]
    );
}

#[test]
fn unicode_identifiers() {
    // Only `unicode_ident` knows these letters.
    assert_eq!(
        kinds("\u{e9}t\u{e9} \u{3b1}1"),
        vec![
            TokenKind::Identifier,
            TokenKind::Identifier,
            TokenKind::Semicolon,
            TokenKind::Eof
        ]
    );
    assert_eq!(
        spans("\u{e9}t\u{e9} \u{3b1}1"),
        vec![(0, 5), (6, 9), (9, 9), (9, 9)]
    );
    // A combining mark continues an identifier and starts none.
    assert_eq!(
        kinds("a\u{301}"),
        vec![TokenKind::Identifier, TokenKind::Semicolon, TokenKind::Eof]
    );
    assert_eq!(kinds("\u{301}")[0], TokenKind::Error);
    // The multiplication sign is no letter.
    assert_eq!(kinds("\u{d7}")[0], TokenKind::Error);
}

#[test]
fn pattern_white_space_is_passed_over() {
    assert_eq!(
        kinds("\u{9}\u{b}\u{c}\r \u{85}\u{200e}\u{200f}\u{2028}\u{2029}1"),
        vec![TokenKind::Number, TokenKind::Semicolon, TokenKind::Eof]
    );
    // The no-break space is not in the set.
    assert_eq!(kinds("\u{a0}")[0], TokenKind::Error);
}

#[test]
fn numbers_are_runs_of_digits() {
    assert_eq!(
        kinds("12 3.4 0x1f"),
        vec![
            TokenKind::Number,
            TokenKind::Number,
            TokenKind::Dot,
            TokenKind::Number,
            TokenKind::Number,
            TokenKind::Identifier,
            TokenKind::Semicolon,
            TokenKind::Eof
        ]
    );
}

#[test]
fn spans_reassemble_the_source() {
    let source = "fn add(a: i32, b: i32): i32 {\n  // sum\n  a + b /* done */\n}\n\"\u{e9}\" $ x";
    let tokens = lex(source);
    let mut rebuilt = String::new();
    let mut at = 0usize;
    for token in &tokens {
        let span = token.span();
        if token.kind() == TokenKind::Semicolon && span.len() == 0 {
            continue;
        }
        let text = span.text(source).unwrap();
        let start = source[at..].find(text).unwrap() + at;
        // What lies between two tokens is whitespace and comments.
        let gap = &source[at..start];
        assert_eq!(kinds(gap), vec![TokenKind::Eof], "{:?}", gap);
        rebuilt.push_str(gap);
        rebuilt.push_str(text);
        at = start + text.len();
    }
    assert_eq!(rebuilt, source);
}

#[test]
fn terminating_kinds() {
    for kind in [
        TokenKind::RightParen,
        TokenKind::RightBrace,
        TokenKind::RightBracket,
        TokenKind::Identifier,
        TokenKind::String,
        TokenKind::Number,
        TokenKind::Break,
        TokenKind::Continue,
        TokenKind::Return,
        TokenKind::PlusPlus,
        TokenKind::MinusMinus,
    ] {
        assert!(should_terminate_expr(kind));
    }
    for kind in [
        TokenKind::Plus,
        TokenKind::Semicolon,
        TokenKind::LeftParen,
        TokenKind::True,
        TokenKind::Eof,
        TokenKind::Error,
    ] {
        assert!(!should_terminate_expr(kind));
    }
}
