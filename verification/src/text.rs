//! Reading a UTF-8 text by byte offsets, one character at a time.

use vstd::prelude::*;
use vstd::string::*;
use vstd::utf8::*;

verus! {

/// Whether `pos` is a place in `s` from which the rest decodes as UTF-8.
pub open spec fn is_cursor(s: Seq<u8>, pos: int) -> bool {
    0 <= pos <= s.len() && valid_utf8(s.subrange(pos, s.len() as int))
}

/// The character whose encoding starts at byte `pos` of `s`.
pub open spec fn char_at(s: Seq<u8>, pos: int) -> char {
    decode_first_scalar(s.subrange(pos, s.len() as int)) as char
}

/// The offset just behind the character that starts at byte `pos` of `s`.
pub open spec fn char_end(s: Seq<u8>, pos: int) -> int {
    pos + length_of_first_scalar(s.subrange(pos, s.len() as int))
}

/// The character at `pos`, or `None` at the end of the text.
pub open spec fn peek_at(s: Seq<u8>, pos: int) -> Option<char> {
    if 0 <= pos < s.len() {
        Some(char_at(s, pos))
    } else {
        None
    }
}

/// Whether the character `c` stands at `pos`.
pub open spec fn follows(s: Seq<u8>, pos: int, c: char) -> bool {
    peek_at(s, pos) == Some(c)
}

/// The number of bytes that the UTF-8 encoding of `c` takes.
pub open spec fn utf8_width(c: char) -> int {
    encode_scalar(c as u32).len() as int
}

/// A character takes at least one byte and ends inside the text, at a
/// place from which the rest decodes again.
pub proof fn lemma_char_step(s: Seq<u8>, pos: int)
    requires
        is_cursor(s, pos),
        pos < s.len(),
    ensures
        pos < char_end(s, pos) <= s.len(),
        is_cursor(s, char_end(s, pos)),
{
    let tail = s.subrange(pos, s.len() as int);
    assert(valid_first_scalar(tail));
    assert(pop_first_scalar(tail) =~= s.subrange(char_end(s, pos), s.len() as int));
}

/// What a well-formed first character decodes to is a Unicode scalar.
pub proof fn lemma_decoded_scalar(bytes: Seq<u8>)
    requires
        valid_first_scalar(bytes),
    ensures
        is_scalar(decode_first_scalar(bytes)),
{
    let b0 = bytes[0];
    if is_leading_byte_width_1(b0) {
        assert((b0 & 0x7f) as u32 <= 0x7f) by (bit_vector);
    } else if is_leading_byte_width_2(b0) {
        let b1 = bytes[1];
        assert((((b0 & 0x1f) as u32) << 6) | ((b1 & 0x3f) as u32) <= 0x7ff) by (bit_vector);
    } else if is_leading_byte_width_3(b0) {
        let b1 = bytes[1];
        let b2 = bytes[2];
        assert((((b0 & 0x0f) as u32) << 12) | (((b1 & 0x3f) as u32) << 6) | ((b2 & 0x3f) as u32)
            <= 0xffff) by (bit_vector);
    } else {
    }
}

/// The characters of ASCII are the ones that take a single byte, which is
/// their code.
pub proof fn lemma_ascii_char(s: Seq<u8>, pos: int)
    requires
        is_cursor(s, pos),
        pos < s.len(),
    ensures
        s[pos] < 0x80 <==> char_at(s, pos) <= '\u{7f}',
        s[pos] < 0x80 ==> char_at(s, pos) as u8 == s[pos] && char_end(s, pos) == pos + 1,
{
    let tail = s.subrange(pos, s.len() as int);
    assert(valid_first_scalar(tail));
    let b = tail[0];
    let v = decode_first_scalar(tail);
    assert(b == s[pos]);
    if b < 0x80 {
        assert((b & 0x7f) as u32 == b as u32) by (bit_vector)
            requires
                b < 0x80,
        ;
        assert(v == b as u32);
    } else {
        assert(v >= 0x80);
        lemma_decoded_scalar(tail);
    }
    assert((v as char) as u32 == v);
}

/// In a text that is UTF-8 as a whole, the places from which the rest
/// decodes are the boundaries between its characters.
pub proof fn lemma_cursor_boundary(s: Seq<u8>, pos: int)
    requires
        valid_utf8(s),
        0 <= pos <= s.len(),
    ensures
        is_cursor(s, pos) <==> is_char_boundary(s, pos),
{
    if is_char_boundary(s, pos) {
        valid_utf8_split(s, pos);
    }
    if is_cursor(s, pos) {
        if pos < s.len() {
            let tail = s.subrange(pos, s.len() as int);
            assert(valid_first_scalar(tail));
            assert(tail[0] == s[pos]);
            is_char_boundary_iff_not_is_continuation_byte(s, pos);
        } else {
            is_char_boundary_start_end_of_seq(s);
        }
    }
}

/// The number of line feeds among the characters of `s` that start at
/// `from` or later, and before `to`.
pub open spec fn lines_between(s: Seq<u8>, from: int, to: int) -> nat
    decreases s.len() - from,
    when is_cursor(s, from)
{
    if from < to && from < s.len() {
        proof {
            lemma_char_step(s, from);
        }
        let here: nat = if char_at(s, from) == '\n' {
            1
        } else {
            0
        };
        here + lines_between(s, char_end(s, from), to)
    } else {
        0
    }
}

/// The number of characters of `s` that start at `from` or later, before
/// `to`, and behind the last line feed that does.
pub open spec fn columns_between(s: Seq<u8>, from: int, to: int) -> nat
    decreases s.len() - from,
    when is_cursor(s, from)
{
    if from < to && from < s.len() {
        proof {
            lemma_char_step(s, from);
        }
        let next = char_end(s, from);
        if char_at(s, from) == '\n' || lines_between(s, next, to) > 0 {
            columns_between(s, next, to)
        } else {
            1 + columns_between(s, next, to)
        }
    } else {
        0
    }
}

/// The number of bytes that the UTF-8 encoding of `c` takes.
pub fn len_utf8(c: char) -> (n: usize)
    ensures
        n == utf8_width(c),
        1 <= n <= 4,
{
    let v = c as u32;
    if v < 0x80 {
        1
    } else if v < 0x800 {
        2
    } else if v < 0x10000 {
        3
    } else {
        4
    }
}

/// The first character of `rest`, if it has one.
pub fn first_char(rest: &str) -> (r: Option<char>)
    ensures
        r == peek_at(rest.spec_bytes(), 0),
        r matches Some(c) ==> char_end(rest.spec_bytes(), 0) == utf8_width(c),
{
    broadcast use group_string_axioms;

    let mut it = rest.chars();
    let r = it.next();
    proof {
        if rest@.len() > 0 {
            encode_utf8_first_scalar(rest@);
            char_u32_cast(rest@[0], decode_first_scalar(rest.spec_bytes()));
            assert(rest.spec_bytes().subrange(0, rest.spec_bytes().len() as int)
                =~= rest.spec_bytes());
        }
    }
    r
}

} // verus!
