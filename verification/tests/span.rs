use std::ops::Range;

use serqlane::diagnostic::{SourceLocation, SourceSpan};

#[test]
fn span_accessors() {
    let span = SourceSpan::new(3, 8);
    assert_eq!(span.len(), 5);
    assert_eq!(span.start(), SourceLocation::new(3));
    assert_eq!(span.end(), SourceLocation::new(8));
    assert_eq!(Range::<u32>::from(span), 3..8);
    assert_eq!(Range::<usize>::from(span), 3usize..8usize);
    assert_eq!(SourceSpan::new(4, 4).len(), 0);
}

#[test]
fn span_text() {
    let source = "let caf\u{e9} = 1";
    assert_eq!(SourceSpan::new(0, 3).text(source), Some("let"));
    assert_eq!(SourceSpan::new(4, 9).text(source), Some("caf\u{e9}"));
    assert_eq!(SourceSpan::new(12, 13).text(source), Some("1"));
    assert_eq!(SourceSpan::new(13, 13).text(source), Some(""));
    assert_eq!(SourceSpan::new(0, 0).text(""), Some(""));
}

#[test]
fn span_text_out_of_bounds() {
    let source = "abc";
    assert_eq!(SourceSpan::new(0, 4).text(source), None);
    assert_eq!(SourceSpan::new(4, 5).text(source), None);
    assert_eq!(SourceSpan::new(1, 1).text(""), None);
}

#[test]
fn span_text_inside_a_character() {
    // The letter takes the bytes 3 and 4.
    let source = "caf\u{e9}s";
    assert_eq!(SourceSpan::new(0, 4).text(source), None);
    assert_eq!(SourceSpan::new(4, 6).text(source), None);
    assert_eq!(SourceSpan::new(3, 5).text(source), Some("\u{e9}"));
}

#[test]
fn line_and_column_are_one_based() {
    let source = "ab\ncd\n\nef";
    assert_eq!(SourceLocation::new(0).as_line_and_column(source), (1, 1));
    assert_eq!(SourceLocation::new(1).as_line_and_column(source), (1, 2));
    // The line feed itself still belongs to its line.
    assert_eq!(SourceLocation::new(2).as_line_and_column(source), (1, 3));
    assert_eq!(SourceLocation::new(3).as_line_and_column(source), (2, 1));
    assert_eq!(SourceLocation::new(5).as_line_and_column(source), (2, 3));
    assert_eq!(SourceLocation::new(6).as_line_and_column(source), (3, 1));
    assert_eq!(SourceLocation::new(7).as_line_and_column(source), (4, 1));
    assert_eq!(SourceLocation::new(8).as_line_and_column(source), (4, 2));
    assert_eq!(SourceLocation::new(9).as_line_and_column(source), (4, 3));
}

#[test]
fn line_and_column_behind_the_end() {
    assert_eq!(SourceLocation::new(100).as_line_and_column("ab\nc"), (2, 2));
    assert_eq!(SourceLocation::new(0).as_line_and_column(""), (1, 1));
    assert_eq!(SourceLocation::new(5).as_line_and_column(""), (1, 1));
}

#[test]
fn columns_count_characters() {
    // Two letters of two bytes each, then `x` at byte 4.
    let source = "\u{e9}\u{e9}x";
    assert_eq!(SourceLocation::new(4).as_line_and_column(source), (1, 3));
    // A location inside a character counts as the start of the next.
    assert_eq!(SourceLocation::new(1).as_line_and_column(source), (1, 2));
    assert_eq!(SourceLocation::new(2).as_line_and_column(source), (1, 2));
}
