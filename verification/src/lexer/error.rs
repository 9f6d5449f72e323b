//! What an `Error` token stands for.

use vstd::prelude::*;
use vstd::string::*;
use vstd::utf8::*;

use super::cursor::{run_end, CharClass};
use super::stream::scan_token;
use super::token::{Token, TokenKind};
use crate::text::{char_at, char_end, first_char, follows, is_cursor};

verus! {

/// The failures that the lexer reports as an [`TokenKind::Error`] token.
#[derive(Clone, Copy, Debug, PartialEq, Eq, Structural)]
pub enum LexicalError {
    /// A string literal whose closing quote is missing.
    UnterminatedString,
    /// A block comment whose `*/` is missing.
    UnterminatedComment,
    /// A character that starts no token.
    UnrecognizedCharacter,
}

/// The failure behind an error token with the text `text`. The first
/// character tells: a quote starts a string, a slash a comment, and
/// everything else is a character out of place.
pub open spec fn error_class(text: Seq<u8>) -> LexicalError {
    let c = char_at(text, 0);
    if c == '"' {
        LexicalError::UnterminatedString
    } else if c == '/' {
        LexicalError::UnterminatedComment
    } else {
        LexicalError::UnrecognizedCharacter
    }
}

impl Token {
    /// Tells what failure an error token of `source` stands for.
    ///
    /// Gives `None` for a token of another kind, and for one whose span
    /// covers no text of `source`.
    pub fn error(self, source: &str) -> (r: Option<LexicalError>)
        ensures
            r is Some <==> self.kind == TokenKind::Error && self.span.lies_in(source.spec_bytes())
                && self.span.start_offset() < self.span.end_offset(),
            r matches Some(class) ==> class == error_class(self.span.bytes_of(source.spec_bytes())),
    {
        if self.kind != TokenKind::Error {
            return None;
        }
        let text = self.span.text(source);
        let text = match text {
            Some(text) => text,
            None => {
                return None;
            },
        };
        let first = first_char(text);
        match first {
            Some('"') => Some(LexicalError::UnterminatedString),
            Some('/') => Some(LexicalError::UnterminatedComment),
            Some(_) => Some(LexicalError::UnrecognizedCharacter),
            None => None,
        }
    }
}

/// Where the lexer scans an error, the first character tells the failure:
/// behind a quote no other quote follows, behind a slash a block comment
/// starts, and both errors reach to the end of the text; every other error
/// is the one character at which it starts.
pub proof fn lemma_error_token(s: Seq<u8>, pos: int)
    requires
        is_cursor(s, pos),
        pos < s.len(),
        scan_token(s, pos).0 == TokenKind::Error,
    ensures
        match error_class(s.subrange(pos, scan_token(s, pos).1)) {
            LexicalError::UnterminatedString => {
                &&& scan_token(s, pos).1 == s.len()
                &&& run_end(s, char_end(s, pos), CharClass::InString) == s.len()
            },
            LexicalError::UnterminatedComment => {
                &&& scan_token(s, pos).1 == s.len()
                &&& follows(s, char_end(s, pos), '*')
            },
            LexicalError::UnrecognizedCharacter => scan_token(s, pos).1 == char_end(s, pos),
        },
{
    crate::text::lemma_char_step(s, pos);
    super::stream::lemma_scan_token(s, pos);
    let end = scan_token(s, pos).1;
    let tail = s.subrange(pos, s.len() as int);
    let text = s.subrange(pos, end);
    // The first character of the token is the character at `pos`.
    assert(valid_first_scalar(tail));
    let width = length_of_first_scalar(tail);
    assert(text.subrange(0, text.len() as int) =~= text);
    assert forall|i: int| 0 <= i < width implies text[i] == tail[i] by {}
    assert(char_at(text, 0) == char_at(s, pos));
}

} // verus!
