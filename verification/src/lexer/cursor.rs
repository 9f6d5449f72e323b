//! The lexer's place in its source text.

use vstd::prelude::*;
use vstd::string::*;
use vstd::utf8::*;

use super::classes::{is_ascii_digit, is_digit, is_ident2, is_ident_continue};
use crate::text::{char_at, char_end, first_char, follows, is_cursor, lemma_char_step, len_utf8, peek_at};

verus! {

/// A set of characters of which the lexer consumes a whole run.
#[derive(Clone, Copy, Debug, PartialEq, Eq, Structural)]
pub enum CharClass {
    /// What may continue an identifier.
    IdentContinue,
    /// The ASCII digits.
    Digit,
    /// Everything but the line feed.
    InLine,
    /// Everything but the double quote.
    InString,
}

impl CharClass {
    /// Whether `c` belongs to the class.
    pub open spec fn has(self, c: char) -> bool {
        match self {
            CharClass::IdentContinue => is_ident_continue(c),
            CharClass::Digit => is_ascii_digit(c),
            CharClass::InLine => c != '\n',
            CharClass::InString => c != '"',
        }
    }

    /// Tells whether `c` belongs to the class.
    pub fn contains(self, c: char) -> (r: bool)
        ensures
            r == self.has(c),
    {
        match self {
            CharClass::IdentContinue => is_ident2(c),
            CharClass::Digit => is_digit(c),
            CharClass::InLine => c != '\n',
            CharClass::InString => c != '"',
        }
    }
}

/// The end of the longest run of characters of `class` that starts at
/// `pos`.
pub open spec fn run_end(s: Seq<u8>, pos: int, class: CharClass) -> int
    decreases s.len() - pos,
    when is_cursor(s, pos)
{
    if pos < s.len() && class.has(char_at(s, pos)) {
        proof {
            lemma_char_step(s, pos);
        }
        run_end(s, char_end(s, pos), class)
    } else {
        pos
    }
}

/// A run ends inside the text, between two characters.
pub proof fn lemma_run_end(s: Seq<u8>, pos: int, class: CharClass)
    requires
        is_cursor(s, pos),
    ensures
        pos <= run_end(s, pos, class) <= s.len(),
        is_cursor(s, run_end(s, pos, class)),
    decreases s.len() - pos,
{
    if pos < s.len() && class.has(char_at(s, pos)) {
        lemma_char_step(s, pos);
        lemma_run_end(s, char_end(s, pos), class);
    }
}

/// A place in a source text: the text, and the byte offset of the next
/// character to read.
#[derive(Clone, Copy, Debug)]
pub struct Cursor<'src> {
    source: &'src str,
    rest: &'src str,
    pos: usize,
}

impl<'src> Cursor<'src> {
    /// The bytes of the whole text.
    pub closed spec fn text(self) -> Seq<u8> {
        self.source.spec_bytes()
    }

    /// The byte offset of the next character.
    pub closed spec fn offset(self) -> int {
        self.pos as int
    }

    /// The cursor lies inside its text, whose offsets fit in 32 bits.
    pub closed spec fn wf(self) -> bool {
        &&& self.pos <= self.source.spec_bytes().len() <= u32::MAX
        &&& self.rest.spec_bytes() == self.source.spec_bytes().subrange(
            self.pos as int,
            self.source.spec_bytes().len() as int,
        )
    }

    /// A cursor stands between two characters of its text.
    pub proof fn lemma_wf(self)
        requires
            self.wf(),
        ensures
            is_cursor(self.text(), self.offset()),
            self.text().len() <= u32::MAX,
    {
        broadcast use encode_utf8_valid_utf8;

    }

    /// A cursor at the start of `source`, or `None` where the offsets of
    /// `source` do not fit in 32 bits.
    pub fn new(source: &'src str) -> (r: Option<Self>)
        ensures
            r is Some <==> source.spec_bytes().len() <= u32::MAX,
            r matches Some(cursor) ==> cursor.wf() && cursor.text() == source.spec_bytes()
                && cursor.offset() == 0,
    {
        if source.as_bytes().len() > u32::MAX as usize {
            return None;
        }
        assert(source.spec_bytes().subrange(0, source.spec_bytes().len() as int)
            =~= source.spec_bytes());
        Some(Self { source, rest: source, pos: 0 })
    }

    /// The whole text.
    pub fn source(&self) -> (source: &'src str)
        ensures
            source.spec_bytes() == self.text(),
    {
        self.source
    }

    /// The byte offset of the next character.
    pub fn position(&self) -> (pos: u32)
        requires
            self.wf(),
        ensures
            pos == self.offset(),
    {
        self.pos as u32
    }

    /// Whether no character is left.
    pub fn at_end(&self) -> (r: bool)
        requires
            self.wf(),
        ensures
            r == (self.offset() >= self.text().len()),
    {
        self.pos >= self.source.as_bytes().len()
    }

    /// The next character, without consuming it.
    pub fn peek(&self) -> (r: Option<char>)
        requires
            self.wf(),
        ensures
            r == peek_at(self.text(), self.offset()),
    {
        proof {
            let s = self.text();
            let tail = self.rest.spec_bytes();
            assert(tail.subrange(0, tail.len() as int) =~= tail);
        }
        first_char(self.rest)
    }

    /// Consumes the next character, if there is one.
    pub fn bump(&mut self)
        requires
            old(self).wf(),
        ensures
            final(self).wf(),
            final(self).text() == old(self).text(),
            final(self).offset() == if old(self).offset() < old(self).text().len() {
                char_end(old(self).text(), old(self).offset())
            } else {
                old(self).offset()
            },
    {
        broadcast use encode_utf8_valid_utf8;

        match first_char(self.rest) {
            Some(c) => {
                let n = len_utf8(c);
                let ghost s = self.text();
                let ghost tail = self.rest.spec_bytes();
                proof {
                    assert(tail.subrange(0, tail.len() as int) =~= tail);
                    assert(valid_first_scalar(tail));
                    reveal_with_fuel(is_char_boundary, 2);
                    assert(is_char_boundary(tail, n as int));
                }
                let (_, rest) = self.rest.split_at(n);
                proof {
                    assert(rest.spec_bytes() =~= s.subrange(self.pos + n, s.len() as int));
                }
                self.rest = rest;
                self.pos = self.pos + n;
            },
            None => {},
        }
    }

    /// Consumes all that is left.
    pub fn finish(&mut self)
        requires
            old(self).wf(),
        ensures
            final(self).wf(),
            final(self).text() == old(self).text(),
            final(self).offset() == old(self).text().len(),
    {
        broadcast use encode_utf8_valid_utf8;

        let n = self.rest.as_bytes().len();
        let ghost s = self.text();
        proof {
            is_char_boundary_start_end_of_seq(self.rest.spec_bytes());
        }
        let (_, rest) = self.rest.split_at(n);
        proof {
            assert(rest.spec_bytes() =~= s.subrange(s.len() as int, s.len() as int));
        }
        self.rest = rest;
        self.pos = self.pos + n;
    }

    /// Consumes the next character if it is `c`, and tells whether it was.
    pub fn eat(&mut self, c: char) -> (r: bool)
        requires
            old(self).wf(),
        ensures
            final(self).wf(),
            final(self).text() == old(self).text(),
            r == follows(old(self).text(), old(self).offset(), c),
            final(self).offset() == if r {
                char_end(old(self).text(), old(self).offset())
            } else {
                old(self).offset()
            },
    {
        let next = self.peek();
        if next == Some(c) {
            self.bump();
            true
        } else {
            false
        }
    }

    /// Consumes the longest run of characters of `class`.
    pub fn skip(&mut self, class: CharClass)
        requires
            old(self).wf(),
        ensures
            final(self).wf(),
            final(self).text() == old(self).text(),
            final(self).offset() == run_end(old(self).text(), old(self).offset(), class),
    {
        loop
            invariant
                self.wf(),
                self.text() == old(self).text(),
                run_end(self.text(), self.offset(), class) == run_end(
                    old(self).text(),
                    old(self).offset(),
                    class,
                ),
            decreases self.text().len() - self.offset(),
        {
            proof {
                self.lemma_wf();
            }
            let more = match self.peek() {
                Some(c) => class.contains(c),
                None => false,
            };
            if !more {
                return ;
            }
            proof {
                lemma_char_step(self.text(), self.offset());
            }
            self.bump();
        }
    }
}

} // verus!
