//! Character classes of the lexical grammar.

use vstd::prelude::*;

verus! {

/// Whether the character is a number to Unicode: one of the general
/// categories decimal digit, letter number and other number. This is what
/// `char::is_numeric` answers; which characters those are is not stated here.
pub uninterp spec fn unicode_numeric(c: char) -> bool;

/// Whether the character has Unicode's `Alphabetic` property. This is what
/// `char::is_alphabetic` answers; which characters have it is not stated
/// here.
pub uninterp spec fn unicode_alphabetic(c: char) -> bool;

/// Whether the character has Unicode's `White_Space` property. This is what
/// `char::is_whitespace` answers; which characters have it is not stated
/// here.
pub uninterp spec fn unicode_whitespace(c: char) -> bool;

/// Assumed, not proved: `char::is_numeric` answers by the character alone,
/// from the Unicode tables that the standard library is built with, and that
/// answer is [`unicode_numeric`].
pub assume_specification[ char::is_numeric ](c: char) -> (r: bool)
    ensures
        r == unicode_numeric(c),
;

/// Assumed, not proved: `char::is_alphabetic` answers by the character alone,
/// and that answer is [`unicode_alphabetic`].
pub assume_specification[ char::is_alphabetic ](c: char) -> (r: bool)
    ensures
        r == unicode_alphabetic(c),
;

/// Assumed, not proved: `char::is_whitespace` answers by the character alone,
/// and that answer is [`unicode_whitespace`].
pub assume_specification[ char::is_whitespace ](c: char) -> (r: bool)
    ensures
        r == unicode_whitespace(c),
;

/// Whitespace that separates lexemes: any white space but the line feed,
/// which is a token of its own.
pub open spec fn is_blank(c: char) -> bool {
    c != '\n' && unicode_whitespace(c)
}

/// A character that may begin a name: a letter or the underscore.
pub open spec fn is_name_start(c: char) -> bool {
    unicode_alphabetic(c) || c == '_'
}

/// A character that may continue a name: a letter, a number or the
/// underscore.
pub open spec fn is_name_part(c: char) -> bool {
    unicode_alphabetic(c) || unicode_numeric(c) || c == '_'
}

/// One of the decimal digits `0` to `9`.
pub open spec fn is_decimal_digit(c: char) -> bool {
    '0' <= c <= '9'
}

/// One of the letters `a` to `f`, in either case.
pub open spec fn is_hex_letter(c: char) -> bool {
    ('a' <= c <= 'f') || ('A' <= c <= 'F')
}

/// A hexadecimal digit: a decimal digit or a hex letter.
pub open spec fn is_hex_digit(c: char) -> bool {
    is_decimal_digit(c) || is_hex_letter(c)
}

/// The number that a hexadecimal digit stands for; 0 for any other character.
pub open spec fn digit_value(c: char) -> nat {
    if is_decimal_digit(c) {
        (c as int - '0' as int) as nat
    } else if 'a' <= c <= 'f' {
        (c as int - 'a' as int + 10) as nat
    } else if 'A' <= c <= 'F' {
        (c as int - 'A' as int + 10) as nat
    } else {
        0
    }
}

/// Whether the character is whitespace that separates lexemes.
pub fn blank(c: char) -> (r: bool)
    ensures
        r == is_blank(c),
{
    c != '\n' && c.is_whitespace()
}

/// Whether the character is one of the decimal digits `0` to `9`.
pub fn decimal_digit(c: char) -> (r: bool)
    ensures
        r == is_decimal_digit(c),
{
    '0' <= c && c <= '9'
}

/// Whether the character is one of the letters `a` to `f`, in either case.
pub fn hex_letter(c: char) -> (r: bool)
    ensures
        r == is_hex_letter(c),
{
    ('a' <= c && c <= 'f') || ('A' <= c && c <= 'F')
}

/// The number that a hexadecimal digit stands for; 0 for any other character.
pub fn digit_of(c: char) -> (r: u8)
    ensures
        r == digit_value(c),
        r < 16,
{
    if '0' <= c && c <= '9' {
        (c as u32 - '0' as u32) as u8
    } else if 'a' <= c && c <= 'f' {
        (c as u32 - 'a' as u32 + 10) as u8
    } else if 'A' <= c && c <= 'F' {
        (c as u32 - 'A' as u32 + 10) as u8
    } else {
        0
    }
}

} // verus!
