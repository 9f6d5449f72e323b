use serqlane::diagnostic::SourceSpan;
use serqlane::lexer::{Lexer, LexicalError, Token, TokenKind};

fn error_tokens(source: &str) -> Vec<Token> {
    let mut lexer = Lexer::new(source).unwrap();
    let mut errors = Vec::new();
    while let Some(token) = lexer.next() {
        if token.kind() == TokenKind::Error {
            errors.push(token);
        }
    }
    errors
}

#[test]
fn error_tokens_are_classified() {
    let source = "a $ \"never";
    let errors = error_tokens(source);
    assert_eq!(errors.len(), 2);
    assert_eq!(errors[0].error(source), Some(LexicalError::UnrecognizedCharacter));
    assert_eq!(errors[1].error(source), Some(LexicalError::UnterminatedString));

    let source = "1 /* never";
    let errors = error_tokens(source);
    assert_eq!(errors.len(), 1);
    assert_eq!(errors[0].error(source), Some(LexicalError::UnterminatedComment));

    let source = "\u{20ac}";
    let errors = error_tokens(source);
    assert_eq!(errors[0].error(source), Some(LexicalError::UnrecognizedCharacter));
}

#[test]
fn other_tokens_have_no_error() {
    let source = "a + 1";
    let mut lexer = Lexer::new(source).unwrap();
    while let Some(token) = lexer.next() {
        assert_eq!(token.error(source), None);
    }
}

#[test]
fn error_token_of_another_text() {
    let errors = error_tokens("abcdef $");
    // The span lies behind the end of this text.
    assert_eq!(errors[0].error("abc"), None);
    assert_eq!(errors[0].span(), SourceSpan::new(7, 8));
}
