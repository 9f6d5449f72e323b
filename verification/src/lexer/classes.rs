//! The character classes that the lexer tells apart.

use vstd::prelude::*;

verus! {

/// Whether `c` has the Unicode property XID_Start, as `unicode_ident`
/// reports it.
pub uninterp spec fn xid_start(c: char) -> bool;

/// Whether `c` has the Unicode property XID_Continue, as `unicode_ident`
/// reports it.
pub uninterp spec fn xid_continue(c: char) -> bool;

/// `unicode_ident::is_xid_start`: a lookup in the crate's tables, so the
/// answer depends on the character alone. For an ASCII character the crate
/// tests one bit of a mask in which exactly the letters are set.
pub assume_specification[ unicode_ident::is_xid_start ](ch: char) -> (r: bool)
    ensures
        r == xid_start(ch),
        is_ascii(ch) ==> r == is_ascii_letter(ch),
;

/// `unicode_ident::is_xid_continue`: a lookup in the crate's tables, so the
/// answer depends on the character alone.
pub assume_specification[ unicode_ident::is_xid_continue ](ch: char) -> (r: bool)
    ensures
        r == xid_continue(ch),
;

/// Whether `c` is a character of ASCII.
pub open spec fn is_ascii(c: char) -> bool {
    c <= '\u{7f}'
}

/// Whether `c` is one of the letters `a` to `z` and `A` to `Z`.
pub open spec fn is_ascii_letter(c: char) -> bool {
    'a' <= c <= 'z' || 'A' <= c <= 'Z'
}

/// Whether `c` is one of the digits `0` to `9`.
pub open spec fn is_ascii_digit(c: char) -> bool {
    '0' <= c <= '9'
}

/// Whether `c` is one of the letters `a` to `z`.
pub open spec fn is_ascii_lowercase(c: char) -> bool {
    'a' <= c <= 'z'
}

/// The characters that may start an identifier: the underscore and the
/// characters of XID_Start, which in ASCII are the letters.
pub open spec fn is_ident_start(c: char) -> bool {
    c == '_' || if is_ascii(c) {
        is_ascii_letter(c)
    } else {
        xid_start(c)
    }
}

/// The characters that may continue an identifier: those of XID_Continue,
/// which in ASCII are the letters, the digits and the underscore.
pub open spec fn is_ident_continue(c: char) -> bool {
    if is_ascii(c) {
        is_ascii_letter(c) || is_ascii_digit(c) || c == '_'
    } else {
        xid_continue(c)
    }
}

/// The characters of Pattern_White_Space.
pub open spec fn is_pattern_white_space(c: char) -> bool {
    c == '\u{0009}' || c == '\u{000A}' || c == '\u{000B}' || c == '\u{000C}' || c == '\u{000D}'
        || c == '\u{0020}' || c == '\u{0085}' || c == '\u{200E}' || c == '\u{200F}' || c
        == '\u{2028}' || c == '\u{2029}'
}

/// Tells whether `c` is an ASCII digit.
pub fn is_digit(c: char) -> (r: bool)
    ensures
        r == is_ascii_digit(c),
{
    '0' <= c && c <= '9'
}

/// Tells whether `c` is a lowercase ASCII letter.
pub fn is_lowercase(c: char) -> (r: bool)
    ensures
        r == is_ascii_lowercase(c),
{
    'a' <= c && c <= 'z'
}

/// Tells whether `c` is whitespace between tokens.
pub fn is_whitespace(c: char) -> (r: bool)
    ensures
        r == is_pattern_white_space(c),
{
    // This is Pattern_White_Space.
    // The set is stable so it is ok to hardcode the values.
    match c {
        // Usual ASCII suspects
        '\u{0009}'   // \t
        | '\u{000A}' // \n
        | '\u{000B}' // vertical tab
        | '\u{000C}' // form feed
        | '\u{000D}' // \r
        | '\u{0020}' // space
        // NEXT LINE from latin1
        | '\u{0085}'
        // Bidi markers
        | '\u{200E}' // LEFT-TO-RIGHT MARK
        | '\u{200F}' // RIGHT-TO-LEFT MARK
        // Dedicated whitespace characters from Unicode
        | '\u{2028}' // LINE SEPARATOR
        | '\u{2029}' // PARAGRAPH SEPARATOR
        => true,
        _ => false,
    }
}

/// Tells whether `c` may start an identifier.
pub fn is_ident1(c: char) -> (r: bool)
    ensures
        r == is_ident_start(c),
{
    c == '_' || unicode_ident::is_xid_start(c)
}

/// Tells whether `c` may continue an identifier.
pub fn is_ident2(c: char) -> (r: bool)
    ensures
        r == is_ident_continue(c),
{
    if c <= '\u{7f}' {
        // Avoid the slower `is_xid_continue` path for ASCII ranges.
        ('a' <= c && c <= 'z') || ('A' <= c && c <= 'Z') || c == '_' || ('0' <= c && c <= '9')
    } else {
        unicode_ident::is_xid_continue(c)
    }
}

} // verus!
