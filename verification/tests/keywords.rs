use serqlane::lexer::keywords::{check_keyword, kw, MAX_KEYWORD_LEN};
use serqlane::lexer::TokenKind;

#[test]
fn kw_pads_with_zeros() {
    assert_eq!(kw("fn"), [b'f', b'n', 0, 0, 0, 0, 0, 0]);
    assert_eq!(kw("continue"), *b"continue");
    assert_eq!(kw(""), [0u8; MAX_KEYWORD_LEN]);
}

#[test]
fn check_keyword_knows_the_reserved_words() {
    assert_eq!(check_keyword(kw("break")), TokenKind::Break);
    assert_eq!(check_keyword(kw("const")), TokenKind::Const);
    assert_eq!(check_keyword(kw("continue")), TokenKind::Continue);
    assert_eq!(check_keyword(kw("else")), TokenKind::Else);
    assert_eq!(check_keyword(kw("enum")), TokenKind::Enum);
    assert_eq!(check_keyword(kw("false")), TokenKind::False);
    assert_eq!(check_keyword(kw("for")), TokenKind::For);
    assert_eq!(check_keyword(kw("fn")), TokenKind::Fn);
    assert_eq!(check_keyword(kw("if")), TokenKind::If);
    assert_eq!(check_keyword(kw("let")), TokenKind::Let);
    assert_eq!(check_keyword(kw("mut")), TokenKind::Mut);
    assert_eq!(check_keyword(kw("pub")), TokenKind::Pub);
    assert_eq!(check_keyword(kw("return")), TokenKind::Return);
    assert_eq!(check_keyword(kw("true")), TokenKind::True);
    assert_eq!(check_keyword(kw("while")), TokenKind::While);
}

#[test]
fn check_keyword_compares_the_whole_buffer() {
    for word in [
        "fnx", "fna", "fno", "b", "breaks", "brea", "cons", "constant", "conti", "els", "elses",
        "enu", "fals", "fo", "fort", "i", "ifs", "le", "lets", "mu", "muta", "pu", "publ", "retur",
        "returns", "tru", "trues", "whil", "whiles", "x", "zzzzzzzz",
    ] {
        assert_eq!(check_keyword(kw(word)), TokenKind::Identifier, "{}", word);
    }
    assert_eq!(check_keyword([0u8; MAX_KEYWORD_LEN]), TokenKind::Identifier);
    // Something behind the zero that ends the word.
    assert_eq!(
        check_keyword([b'i', b'f', 0, b'x', 0, 0, 0, 0]),
        TokenKind::Identifier
    );
}
