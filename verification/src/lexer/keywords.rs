//! Recognition of the reserved words.

use vstd::prelude::*;
use vstd::string::*;
use vstd::utf8::*;

use super::token::TokenKind;

verus! {

/// The maximum length of a Serqlane keyword in bytes.
pub const MAX_KEYWORD_LEN: usize = 8;

/// Whether `b` is the code of a lowercase ASCII letter.
pub open spec fn is_lower(b: u8) -> bool {
    'a' as u8 <= b <= 'z' as u8
}

/// Whether `word` is made of lowercase ASCII letters alone.
pub open spec fn all_lower(word: Seq<u8>) -> bool {
    forall|i: int| 0 <= i < word.len() ==> is_lower(#[trigger] word[i])
}

/// The bytes of `word`, filled up with zeros to the width of the buffer.
pub open spec fn padded(word: Seq<u8>) -> Seq<u8> {
    Seq::new(
        MAX_KEYWORD_LEN as nat,
        |i: int|
            if i < word.len() {
                word[i]
            } else {
                0u8
            },
    )
}

/// The reserved word that `word` spells, or `Identifier` where it spells
/// none.
pub open spec fn keyword_kind(word: Seq<u8>) -> TokenKind {
    if word == "break".spec_bytes() {
        TokenKind::Break
    } else if word == "const".spec_bytes() {
        TokenKind::Const
    } else if word == "continue".spec_bytes() {
        TokenKind::Continue
    } else if word == "else".spec_bytes() {
        TokenKind::Else
    } else if word == "enum".spec_bytes() {
        TokenKind::Enum
    } else if word == "false".spec_bytes() {
        TokenKind::False
    } else if word == "for".spec_bytes() {
        TokenKind::For
    } else if word == "fn".spec_bytes() {
        TokenKind::Fn
    } else if word == "if".spec_bytes() {
        TokenKind::If
    } else if word == "let".spec_bytes() {
        TokenKind::Let
    } else if word == "mut".spec_bytes() {
        TokenKind::Mut
    } else if word == "pub".spec_bytes() {
        TokenKind::Pub
    } else if word == "return".spec_bytes() {
        TokenKind::Return
    } else if word == "true".spec_bytes() {
        TokenKind::True
    } else if word == "while".spec_bytes() {
        TokenKind::While
    } else {
        TokenKind::Identifier
    }
}

/// Spreads `input` over a keyword buffer.
pub fn kw(input: &str) -> (res: [u8; MAX_KEYWORD_LEN])
    requires
        input.spec_bytes().len() <= MAX_KEYWORD_LEN,
    ensures
        res@ == padded(input.spec_bytes()),
{
    let input = input.as_bytes();
    let mut res = [0u8; MAX_KEYWORD_LEN];

    let mut i: usize = 0;
    while i < input.len()
        invariant
            i <= input.len() <= MAX_KEYWORD_LEN,
            forall|j: int| 0 <= j < i ==> res@[j] == input@[j],
            forall|j: int| i <= j < MAX_KEYWORD_LEN ==> res@[j] == 0u8,
        decreases input.len() - i,
    {
        res[i] = input[i];
        i += 1;
    }
    assert(res@ =~= padded(input@));
    res
}

fn match_kw(buf: &[u8; MAX_KEYWORD_LEN], pred: &[u8; MAX_KEYWORD_LEN], token: TokenKind) -> (kind: TokenKind)
    ensures
        kind == if buf@ == pred@ { token } else { TokenKind::Identifier },
{
    let mut i: usize = 0;
    while i < MAX_KEYWORD_LEN
        invariant
            i <= MAX_KEYWORD_LEN,
            forall|j: int| 0 <= j < i ==> buf@[j] == pred@[j],
        decreases MAX_KEYWORD_LEN - i,
    {
        if buf[i] != pred[i] {
            return TokenKind::Identifier;
        }
        i += 1;
    }
    assert(buf@ =~= pred@);
    token
}


/// What the reserved words are made of, byte by byte.
pub proof fn lemma_keyword_bytes()
    ensures
        "break".spec_bytes() == seq![98u8, 114u8, 101u8, 97u8, 107u8],
        "const".spec_bytes() == seq![99u8, 111u8, 110u8, 115u8, 116u8],
        "continue".spec_bytes() == seq![99u8, 111u8, 110u8, 116u8, 105u8, 110u8, 117u8, 101u8],
        "else".spec_bytes() == seq![101u8, 108u8, 115u8, 101u8],
        "enum".spec_bytes() == seq![101u8, 110u8, 117u8, 109u8],
        "false".spec_bytes() == seq![102u8, 97u8, 108u8, 115u8, 101u8],
        "for".spec_bytes() == seq![102u8, 111u8, 114u8],
        "fn".spec_bytes() == seq![102u8, 110u8],
        "if".spec_bytes() == seq![105u8, 102u8],
        "let".spec_bytes() == seq![108u8, 101u8, 116u8],
        "mut".spec_bytes() == seq![109u8, 117u8, 116u8],
        "pub".spec_bytes() == seq![112u8, 117u8, 98u8],
        "return".spec_bytes() == seq![114u8, 101u8, 116u8, 117u8, 114u8, 110u8],
        "true".spec_bytes() == seq![116u8, 114u8, 117u8, 101u8],
        "while".spec_bytes() == seq![119u8, 104u8, 105u8, 108u8, 101u8],
{
    reveal_strlit("break");
    reveal_strlit("const");
    reveal_strlit("continue");
    reveal_strlit("else");
    reveal_strlit("enum");
    reveal_strlit("false");
    reveal_strlit("for");
    reveal_strlit("fn");
    reveal_strlit("if");
    reveal_strlit("let");
    reveal_strlit("mut");
    reveal_strlit("pub");
    reveal_strlit("return");
    reveal_strlit("true");
    reveal_strlit("while");
    is_ascii_chars_encode_utf8("break"@);
    assert("break".spec_bytes() =~= seq![98u8, 114u8, 101u8, 97u8, 107u8]);
    is_ascii_chars_encode_utf8("const"@);
    assert("const".spec_bytes() =~= seq![99u8, 111u8, 110u8, 115u8, 116u8]);
    is_ascii_chars_encode_utf8("continue"@);
    assert("continue".spec_bytes() =~= seq![99u8, 111u8, 110u8, 116u8, 105u8, 110u8, 117u8, 101u8]);
    is_ascii_chars_encode_utf8("else"@);
    assert("else".spec_bytes() =~= seq![101u8, 108u8, 115u8, 101u8]);
    is_ascii_chars_encode_utf8("enum"@);
    assert("enum".spec_bytes() =~= seq![101u8, 110u8, 117u8, 109u8]);
    is_ascii_chars_encode_utf8("false"@);
    assert("false".spec_bytes() =~= seq![102u8, 97u8, 108u8, 115u8, 101u8]);
    is_ascii_chars_encode_utf8("for"@);
    assert("for".spec_bytes() =~= seq![102u8, 111u8, 114u8]);
    is_ascii_chars_encode_utf8("fn"@);
    assert("fn".spec_bytes() =~= seq![102u8, 110u8]);
    is_ascii_chars_encode_utf8("if"@);
    assert("if".spec_bytes() =~= seq![105u8, 102u8]);
    is_ascii_chars_encode_utf8("let"@);
    assert("let".spec_bytes() =~= seq![108u8, 101u8, 116u8]);
    is_ascii_chars_encode_utf8("mut"@);
    assert("mut".spec_bytes() =~= seq![109u8, 117u8, 116u8]);
    is_ascii_chars_encode_utf8("pub"@);
    assert("pub".spec_bytes() =~= seq![112u8, 117u8, 98u8]);
    is_ascii_chars_encode_utf8("return"@);
    assert("return".spec_bytes() =~= seq![114u8, 101u8, 116u8, 117u8, 114u8, 110u8]);
    is_ascii_chars_encode_utf8("true"@);
    assert("true".spec_bytes() =~= seq![116u8, 114u8, 117u8, 101u8]);
    is_ascii_chars_encode_utf8("while"@);
    assert("while".spec_bytes() =~= seq![119u8, 104u8, 105u8, 108u8, 101u8]);
}

/// Two words without a zero byte that fill the buffer alike are the same
/// word.
pub proof fn lemma_padded_injective(a: Seq<u8>, b: Seq<u8>)
    requires
        a.len() <= MAX_KEYWORD_LEN,
        b.len() <= MAX_KEYWORD_LEN,
        forall|i: int| 0 <= i < a.len() ==> a[i] != 0,
        forall|i: int| 0 <= i < b.len() ==> b[i] != 0,
        padded(a) == padded(b),
    ensures
        a == b,
{
    if a.len() < b.len() {
        assert(padded(a)[a.len() as int] == 0);
        assert(padded(b)[a.len() as int] == b[a.len() as int]);
    } else if b.len() < a.len() {
        assert(padded(b)[b.len() as int] == 0);
        assert(padded(a)[b.len() as int] == a[b.len() as int]);
    }
    assert forall|i: int| 0 <= i < a.len() implies a[i] == b[i] by {
        assert(padded(a)[i] == a[i]);
        assert(padded(b)[i] == b[i]);
    }
    assert(a =~= b);
}

/// A lowercase word fills the buffer as a reserved word does only where it
/// is that word.
proof fn lemma_padded_keyword(word: Seq<u8>, key: Seq<u8>)
    requires
        word.len() <= MAX_KEYWORD_LEN,
        all_lower(word),
        key.len() <= MAX_KEYWORD_LEN,
        all_lower(key),
    ensures
        padded(word) == padded(key) <==> word == key,
{
    if padded(word) == padded(key) {
        lemma_padded_injective(word, key);
    }
}

/// A buffer that equals the padded spelling of a lowercase word is that of
/// some lowercase word.
proof fn lemma_is_padded_word(buf: Seq<u8>, key: Seq<u8>)
    requires
        key.len() <= MAX_KEYWORD_LEN,
        all_lower(key),
        buf == padded(key),
    ensures
        exists|word: Seq<u8>|
            word.len() <= MAX_KEYWORD_LEN && all_lower(word) && buf == #[trigger] padded(word),
{
}

/// Checks if `buf` holds a valid keyword and returns its [`TokenKind`].
///
/// Otherwise returns [`TokenKind::Identifier`]. A keyword is returned only
/// where the whole buffer equals its zero-padded spelling: for the buffer
/// of a lowercase word the result is what the word spells, for every other
/// buffer it is `Identifier`.
pub fn check_keyword(buf: [u8; MAX_KEYWORD_LEN]) -> (kind: TokenKind)
    ensures
        forall|word: Seq<u8>|
            word.len() <= MAX_KEYWORD_LEN && all_lower(word) && buf@ == #[trigger] padded(word)
                ==> kind == keyword_kind(word),
        kind != TokenKind::Identifier ==> exists|word: Seq<u8>|
            word.len() <= MAX_KEYWORD_LEN && all_lower(word) && buf@ == #[trigger] padded(word),
{
    proof {
        lemma_keyword_bytes();
    }
    // This is a small hand-crafted trie that dispatches on the first
    // character of a potential keyword and then goes from there. Every
    // candidate is compared in full before its kind is returned.
    let first = buf[0];
    let kind = if first == 'b' as u8 {
        match_kw(&buf, &kw("break"), TokenKind::Break)
    } else if first == 'c' as u8 && buf[3] == 's' as u8 {
        match_kw(&buf, &kw("const"), TokenKind::Const)
    } else if first == 'c' as u8 && buf[3] == 't' as u8 {
        match_kw(&buf, &kw("continue"), TokenKind::Continue)
    } else if first == 'e' as u8 && buf[1] == 'l' as u8 {
        match_kw(&buf, &kw("else"), TokenKind::Else)
    } else if first == 'e' as u8 && buf[1] == 'n' as u8 {
        match_kw(&buf, &kw("enum"), TokenKind::Enum)
    } else if first == 'f' as u8 && buf[1] == 'a' as u8 {
        match_kw(&buf, &kw("false"), TokenKind::False)
    } else if first == 'f' as u8 && buf[1] == 'n' as u8 {
        match_kw(&buf, &kw("fn"), TokenKind::Fn)
    } else if first == 'f' as u8 && buf[1] == 'o' as u8 {
        match_kw(&buf, &kw("for"), TokenKind::For)
    } else if first == 'i' as u8 {
        match_kw(&buf, &kw("if"), TokenKind::If)
    } else if first == 'l' as u8 {
        match_kw(&buf, &kw("let"), TokenKind::Let)
    } else if first == 'm' as u8 {
        match_kw(&buf, &kw("mut"), TokenKind::Mut)
    } else if first == 'p' as u8 {
        match_kw(&buf, &kw("pub"), TokenKind::Pub)
    } else if first == 'r' as u8 {
        match_kw(&buf, &kw("return"), TokenKind::Return)
    } else if first == 't' as u8 {
        match_kw(&buf, &kw("true"), TokenKind::True)
    } else if first == 'w' as u8 {
        match_kw(&buf, &kw("while"), TokenKind::While)
    } else {
        TokenKind::Identifier
    };
    proof {
        if kind == TokenKind::Break {
            lemma_is_padded_word(buf@, "break".spec_bytes());
        }
        if kind == TokenKind::Const {
            lemma_is_padded_word(buf@, "const".spec_bytes());
        }
        if kind == TokenKind::Continue {
            lemma_is_padded_word(buf@, "continue".spec_bytes());
        }
        if kind == TokenKind::Else {
            lemma_is_padded_word(buf@, "else".spec_bytes());
        }
        if kind == TokenKind::Enum {
            lemma_is_padded_word(buf@, "enum".spec_bytes());
        }
        if kind == TokenKind::False {
            lemma_is_padded_word(buf@, "false".spec_bytes());
        }
        if kind == TokenKind::For {
            lemma_is_padded_word(buf@, "for".spec_bytes());
        }
        if kind == TokenKind::Fn {
            lemma_is_padded_word(buf@, "fn".spec_bytes());
        }
        if kind == TokenKind::If {
            lemma_is_padded_word(buf@, "if".spec_bytes());
        }
        if kind == TokenKind::Let {
            lemma_is_padded_word(buf@, "let".spec_bytes());
        }
        if kind == TokenKind::Mut {
            lemma_is_padded_word(buf@, "mut".spec_bytes());
        }
        if kind == TokenKind::Pub {
            lemma_is_padded_word(buf@, "pub".spec_bytes());
        }
        if kind == TokenKind::Return {
            lemma_is_padded_word(buf@, "return".spec_bytes());
        }
        if kind == TokenKind::True {
            lemma_is_padded_word(buf@, "true".spec_bytes());
        }
        if kind == TokenKind::While {
            lemma_is_padded_word(buf@, "while".spec_bytes());
        }
        assert forall|word: Seq<u8>|
            word.len() <= MAX_KEYWORD_LEN && all_lower(word) && buf@ == #[trigger] padded(
                word,
            ) implies kind == keyword_kind(word) by {
            lemma_padded_keyword(word, "break".spec_bytes());
            lemma_padded_keyword(word, "const".spec_bytes());
            lemma_padded_keyword(word, "continue".spec_bytes());
            lemma_padded_keyword(word, "else".spec_bytes());
            lemma_padded_keyword(word, "enum".spec_bytes());
            lemma_padded_keyword(word, "false".spec_bytes());
            lemma_padded_keyword(word, "for".spec_bytes());
            lemma_padded_keyword(word, "fn".spec_bytes());
            lemma_padded_keyword(word, "if".spec_bytes());
            lemma_padded_keyword(word, "let".spec_bytes());
            lemma_padded_keyword(word, "mut".spec_bytes());
            lemma_padded_keyword(word, "pub".spec_bytes());
            lemma_padded_keyword(word, "return".spec_bytes());
            lemma_padded_keyword(word, "true".spec_bytes());
            lemma_padded_keyword(word, "while".spec_bytes());
        }
    }
    kind
}

} // verus!
