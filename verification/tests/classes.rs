use serqlane::lexer::classes::{is_digit, is_ident1, is_ident2, is_lowercase, is_whitespace};
use serqlane::lexer::cursor::{CharClass, Cursor};
use serqlane::text::{first_char, len_utf8};

#[test]
fn identifier_characters() {
    for c in ['a', 'z', 'A', 'Z', '_', '\u{e9}', '\u{3b1}', '\u{4e2d}'] {
        assert!(is_ident1(c), "{:?}", c);
        assert!(is_ident2(c), "{:?}", c);
    }
    for c in ['0', '9', '\u{301}', '\u{660}'] {
        assert!(!is_ident1(c), "{:?}", c);
        assert!(is_ident2(c), "{:?}", c);
    }
    for c in [' ', '+', '$', '\0', '\u{7f}', '\u{d7}', '\u{20ac}', '\n'] {
        assert!(!is_ident1(c), "{:?}", c);
        assert!(!is_ident2(c), "{:?}", c);
    }
}

#[test]
fn ascii_classes() {
    assert!(is_digit('0') && is_digit('5') && is_digit('9'));
    assert!(!is_digit('a') && !is_digit('/') && !is_digit(':') && !is_digit('\u{660}'));
    assert!(is_lowercase('a') && is_lowercase('m') && is_lowercase('z'));
    assert!(!is_lowercase('A') && !is_lowercase('`') && !is_lowercase('{') && !is_lowercase('\u{e9}'));
}

#[test]
fn white_space() {
    for c in [
        '\t', '\n', '\u{b}', '\u{c}', '\r', ' ', '\u{85}', '\u{200e}', '\u{200f}', '\u{2028}',
        '\u{2029}',
    ] {
        assert!(is_whitespace(c), "{:?}", c);
    }
    for c in ['a', '\0', '\u{a0}', '\u{3000}', '\u{1c}', '\u{feff}'] {
        assert!(!is_whitespace(c), "{:?}", c);
    }
}

#[test]
fn char_classes() {
    assert!(CharClass::IdentContinue.contains('x') && !CharClass::IdentContinue.contains('-'));
    assert!(CharClass::Digit.contains('7') && !CharClass::Digit.contains('x'));
    assert!(CharClass::InLine.contains('x') && !CharClass::InLine.contains('\n'));
    assert!(CharClass::InString.contains('\n') && !CharClass::InString.contains('"'));
}

#[test]
fn widths_of_characters() {
    assert_eq!(len_utf8('\0'), 1);
    assert_eq!(len_utf8('\u{7f}'), 1);
    assert_eq!(len_utf8('\u{80}'), 2);
    assert_eq!(len_utf8('\u{7ff}'), 2);
    assert_eq!(len_utf8('\u{800}'), 3);
    assert_eq!(len_utf8('\u{ffff}'), 3);
    assert_eq!(len_utf8('\u{10000}'), 4);
    assert_eq!(len_utf8('\u{10ffff}'), 4);
    for c in ['a', '\u{e9}', '\u{20ac}', '\u{1f600}'] {
        assert_eq!(len_utf8(c), c.len_utf8());
    }
}

#[test]
fn first_characters() {
    assert_eq!(first_char(""), None);
    assert_eq!(first_char("abc"), Some('a'));
    assert_eq!(first_char("\u{1f600}x"), Some('\u{1f600}'));
}

#[test]
fn cursor_walks_characters() {
    let mut cursor = Cursor::new("a\u{e9}\u{20ac}12 x").unwrap();
    assert_eq!(cursor.source(), "a\u{e9}\u{20ac}12 x");
    assert_eq!(cursor.position(), 0);
    assert_eq!(cursor.peek(), Some('a'));
    cursor.bump();
    assert_eq!((cursor.position(), cursor.peek()), (1, Some('\u{e9}')));
    assert!(!cursor.eat('x'));
    assert_eq!(cursor.position(), 1);
    assert!(cursor.eat('\u{e9}'));
    assert_eq!((cursor.position(), cursor.peek()), (3, Some('\u{20ac}')));
    cursor.bump();
    assert_eq!(cursor.position(), 6);
    cursor.skip(CharClass::Digit);
    assert_eq!((cursor.position(), cursor.peek()), (8, Some(' ')));
    cursor.skip(CharClass::Digit);
    assert_eq!(cursor.position(), 8);
    assert!(!cursor.at_end());
    cursor.skip(CharClass::InLine);
    assert_eq!(cursor.position(), 10);
    assert!(cursor.at_end());
    assert_eq!(cursor.peek(), None);
    cursor.bump();
    assert_eq!(cursor.position(), 10);

    let mut cursor = Cursor::new("abc").unwrap();
    cursor.bump();
    cursor.finish();
    assert!(cursor.at_end());
    assert_eq!(cursor.position(), 3);
}
