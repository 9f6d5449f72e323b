use vstd::prelude::*;
use vstd::string::*;
use vstd::utf8::*;

use crate::text::{columns_between, first_char, lemma_char_step, len_utf8, lines_between};

verus! {

/// Describes a byte offset into a piece of source code.
///
/// A source location is 32 bits in size, effectively limiting a singular
/// source file to a size of 4GiB.
///
/// Note that [`SourceLocation`]s are not attributed to the source string
/// they reference, which makes it the user's responsibility to track
/// these logical relations.
#[derive(Clone, Copy, Debug, PartialEq, Eq, Structural)]
pub struct SourceLocation(u32);

impl View for SourceLocation {
    type V = nat;

    /// The byte offset that the location stands for.
    closed spec fn view(&self) -> nat {
        self.0 as nat
    }
}

impl SourceLocation {
    /// Constructs a new [`SourceLocation`] from a byte offset.
    pub fn new(pos: u32) -> (loc: Self)
        ensures
            loc@ == pos,
    {
        Self(pos)
    }

    /// Converts the [`SourceLocation`] to 1-based line and column.
    ///
    /// The line is one more than the number of line feeds in front of the
    /// location, the column one more than the number of characters between
    /// the last of them and the location. A location behind the end of
    /// `input` counts as its end; one inside a character counts as the
    /// start of the next.
    ///
    /// Line and column have to fit in 32 bits, which they do unless the
    /// location is `u32::MAX` and `input` is no shorter than that.
    ///
    /// This information is only used in error messages, so we choose
    /// to compute it lazily only when we actually need it.
    pub fn as_line_and_column(self, input: &str) -> (r: (u32, u32))
        requires
            self@ < u32::MAX || input.spec_bytes().len() < u32::MAX,
        ensures
            r.0 == 1 + lines_between(input.spec_bytes(), 0, self@ as int),
            r.1 == 1 + columns_between(input.spec_bytes(), 0, self@ as int),
    {
        broadcast use encode_utf8_valid_utf8;

        let mut line: u32 = 1;
        let mut column: u32 = 1;

        let mut pos: usize = 0;
        let mut rest = input;
        let total = input.as_bytes().len();
        let ghost s = input.spec_bytes();
        let ghost to = self@ as int;
        proof {
            assert(s.subrange(0, s.len() as int) =~= s);
        }
        loop
            invariant
                s == input.spec_bytes(),
                s.len() == total,
                to == self@,
                to < u32::MAX || s.len() < u32::MAX,
                pos <= s.len(),
                rest.spec_bytes() == s.subrange(pos as int, s.len() as int),
                1 <= line,
                1 <= column,
                line + column <= pos + 2,
                pos > 0 ==> line + column <= to + 2,
                lines_between(s, 0, to) == line - 1 + lines_between(s, pos as int, to),
                columns_between(s, 0, to) == if lines_between(s, pos as int, to) > 0 {
                    columns_between(s, pos as int, to) as int
                } else {
                    column - 1 + columns_between(s, pos as int, to)
                },
            ensures
                line == 1 + lines_between(s, 0, to),
                column == 1 + columns_between(s, 0, to),
            decreases s.len() - pos,
        {
            proof {
                encode_utf8_valid_utf8(rest@);
            }
            if pos >= self.0 as usize || pos >= total {
                break ;
            }
            let c = match first_char(rest) {
                Some(c) => c,
                None => {
                    break ;
                },
            };
            let n = len_utf8(c);
            let ghost tail = rest.spec_bytes();
            proof {
                assert(tail.subrange(0, tail.len() as int) =~= tail);
                lemma_char_step(s, pos as int);
                assert(valid_first_scalar(tail));
                reveal_with_fuel(is_char_boundary, 2);
                assert(is_char_boundary(tail, n as int));
            }

            if c == '\n' {
                line += 1;
                column = 1;
            } else {
                column += 1;
            }

            let (_, tail) = rest.split_at(n);
            proof {
                assert(tail.spec_bytes() =~= s.subrange(pos + n, s.len() as int));
            }
            rest = tail;
            pos += n;
        }

        (line, column)
    }
}

/// Spans some bytes in a piece of source code: the half-open range from
/// `start` to `end`, with `start <= end`.
#[derive(Clone, Copy, Debug, PartialEq, Eq, Structural)]
pub struct SourceSpan {
    start: SourceLocation,
    end: SourceLocation,
}

impl SourceSpan {
    #[verifier::type_invariant]
    spec fn ordered(self) -> bool {
        self.start.0 <= self.end.0
    }

    /// The offset of the first byte of the span.
    pub closed spec fn start_offset(self) -> nat {
        self.start.0 as nat
    }

    /// The offset one past the last byte of the span.
    pub closed spec fn end_offset(self) -> nat {
        self.end.0 as nat
    }

    /// The span from `start` to `end`, as a ghost value.
    pub closed spec fn between(start: nat, end: nat) -> SourceSpan {
        SourceSpan { start: SourceLocation(start as u32), end: SourceLocation(end as u32) }
    }

    /// What [`SourceSpan::between`] holds, where the offsets fit in 32 bits.
    pub proof fn lemma_between(start: nat, end: nat)
        requires
            start <= u32::MAX,
            end <= u32::MAX,
        ensures
            Self::between(start, end).start_offset() == start,
            Self::between(start, end).end_offset() == end,
    {
    }

    /// Creates a new [`SourceSpan`] from two byte offsets.
    pub fn new(start: u32, end: u32) -> (span: Self)
        requires
            start <= end,
        ensures
            span == Self::between(start as nat, end as nat),
            span.start_offset() == start,
            span.end_offset() == end,
    {
        Self { start: SourceLocation::new(start), end: SourceLocation::new(end) }
    }

    /// Gets the start of the span as a [`SourceLocation`] (inclusive).
    pub fn start(self) -> (loc: SourceLocation)
        ensures
            loc@ == self.start_offset(),
    {
        self.start
    }

    /// Gets the end of the span as a [`SourceLocation`] (exclusive).
    pub fn end(self) -> (loc: SourceLocation)
        ensures
            loc@ == self.end_offset(),
    {
        self.end
    }

    /// Whether the span addresses a piece of `text`: it lies inside, and
    /// both its ends fall between two characters.
    pub open spec fn lies_in(self, text: Seq<u8>) -> bool {
        &&& self.end_offset() <= text.len()
        &&& is_char_boundary(text, self.start_offset() as int)
        &&& is_char_boundary(text, self.end_offset() as int)
    }

    /// The bytes of `text` that the span covers.
    pub open spec fn bytes_of(self, text: Seq<u8>) -> Seq<u8> {
        text.subrange(self.start_offset() as int, self.end_offset() as int)
    }

    /// Gets the byte length of this source span.
    pub fn len(self) -> (n: u32)
        ensures
            self.start_offset() <= self.end_offset(),
            n == self.end_offset() - self.start_offset(),
    {
        proof {
            use_type_invariant(&self);
        }
        self.end.0 - self.start.0
    }

    /// Attempts to extract the spanned substring from `input`.
    ///
    /// This returns [`None`] if the span is out of bounds for the
    /// given string, or the span does not describe valid UTF-8 text.
    pub fn text<'a>(self, input: &'a str) -> (r: Option<&'a str>)
        ensures
            self.start_offset() <= self.end_offset(),
            r is Some <==> self.lies_in(input.spec_bytes()),
            r matches Some(piece) ==> piece.spec_bytes() == self.bytes_of(input.spec_bytes()),
    {
        broadcast use encode_utf8_valid_utf8;

        proof {
            use_type_invariant(&self);
        }
        let start = self.start.0 as usize;
        let end = self.end.0 as usize;
        if end <= input.as_bytes().len() && input.is_char_boundary(start)
            && input.is_char_boundary(end) {
            let ghost s = input.spec_bytes();
            let (head, _) = input.split_at(end);
            proof {
                let h = head.spec_bytes();
                if start < end {
                    assert(h[start as int] == s[start as int]);
                    is_char_boundary_iff_not_is_continuation_byte(s, start as int);
                    is_char_boundary_iff_not_is_continuation_byte(h, start as int);
                } else {
                    is_char_boundary_start_end_of_seq(h);
                }
            }
            let (_, piece) = head.split_at(start);
            proof {
                assert(piece.spec_bytes() =~= s.subrange(start as int, end as int));
            }
            Some(piece)
        } else {
            None
        }
    }
}

impl From<SourceSpan> for core::ops::Range<u32> {
    /// The byte offsets that `value` covers.
    fn from(value: SourceSpan) -> (range: Self) {
        value.start.0..value.end.0
    }
}

impl vstd::std_specs::convert::FromSpecImpl<SourceSpan> for core::ops::Range<u32> {
    open spec fn obeys_from_spec() -> bool {
        true
    }

    open spec fn from_spec(value: SourceSpan) -> Self {
        (value.start_offset() as u32)..(value.end_offset() as u32)
    }
}

impl From<SourceSpan> for core::ops::Range<usize> {
    /// The byte offsets that `value` covers.
    fn from(value: SourceSpan) -> (range: Self) {
        value.start.0 as usize..value.end.0 as usize
    }
}

impl vstd::std_specs::convert::FromSpecImpl<SourceSpan> for core::ops::Range<usize> {
    open spec fn obeys_from_spec() -> bool {
        true
    }

    open spec fn from_spec(value: SourceSpan) -> Self {
        (value.start_offset() as usize)..(value.end_offset() as usize)
    }
}

} // verus!
