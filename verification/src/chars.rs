//! Character classification for the lexer.
//!
//! The digit predicates and digit values are defined here directly: their
//! whole behaviour is a few comparisons on code points.  The Unicode
//! classes (alphabetic, alphanumeric, whitespace) come from the standard
//! library through trusted wrappers; each result is named by an
//! uninterpreted spec function of the character alone.

use vstd::prelude::*;

verus! {

/// What `char::is_alphabetic` returns for `c`; a function of the character alone.
pub uninterp spec fn alphabetic(c: char) -> bool;

/// What `char::is_alphanumeric` returns for `c`; a function of the character alone.
pub uninterp spec fn alphanumeric(c: char) -> bool;

/// What `char::is_whitespace` returns for `c`; a function of the character alone.
pub uninterp spec fn whitespace(c: char) -> bool;

/// Relies on `char::is_alphabetic` (the Unicode `Alphabetic` property),
/// which depends on the character alone.
#[verifier::external_body]
pub(crate) fn char_alphabetic(c: char) -> (r: bool)
    ensures
        r == alphabetic(c),
{
    c.is_alphabetic()
}

/// Relies on `char::is_alphanumeric` (Unicode letters, digits and number
/// forms), which depends on the character alone.
#[verifier::external_body]
pub(crate) fn char_alphanumeric(c: char) -> (r: bool)
    ensures
        r == alphanumeric(c),
{
    c.is_alphanumeric()
}

/// Relies on `char::is_whitespace` (the Unicode `White_Space` property),
/// which depends on the character alone.
#[verifier::external_body]
pub(crate) fn char_whitespace(c: char) -> (r: bool)
    ensures
        r == whitespace(c),
{
    c.is_whitespace()
}

/// A decimal digit, `0` to `9`.
pub open spec fn is_dec_digit(c: char) -> bool {
    '0' <= c && c <= '9'
}

/// An octal digit, `0` to `7`.
pub open spec fn is_oct_digit(c: char) -> bool {
    '0' <= c && c <= '7'
}

/// A hexadecimal digit: `0` to `9`, `a` to `f`, or `A` to `F`.
pub open spec fn is_hex_digit(c: char) -> bool {
    ('0' <= c && c <= '9') || ('a' <= c && c <= 'f') || ('A' <= c && c <= 'F')
}

/// The numeric value of a digit in any of the three radixes above.
pub open spec fn digit_val(c: char) -> i64 {
    if '0' <= c && c <= '9' {
        (c as u32 - '0' as u32) as i64
    } else if 'a' <= c && c <= 'f' {
        (c as u32 - 'a' as u32 + 10) as i64
    } else if 'A' <= c && c <= 'F' {
        (c as u32 - 'A' as u32 + 10) as i64
    } else {
        0
    }
}

pub fn dec_digit(c: char) -> (r: bool)
    ensures
        r == is_dec_digit(c),
{
    '0' <= c && c <= '9'
}

pub fn oct_digit(c: char) -> (r: bool)
    ensures
        r == is_oct_digit(c),
{
    '0' <= c && c <= '7'
}

pub fn hex_digit(c: char) -> (r: bool)
    ensures
        r == is_hex_digit(c),
{
    ('0' <= c && c <= '9') || ('a' <= c && c <= 'f') || ('A' <= c && c <= 'F')
}

pub fn digit_value(c: char) -> (r: i64)
    ensures
        r == digit_val(c),
{
    if '0' <= c && c <= '9' {
        (c as u32 - '0' as u32) as i64
    } else if 'a' <= c && c <= 'f' {
        (c as u32 - 'a' as u32 + 10) as i64
    } else if 'A' <= c && c <= 'F' {
        (c as u32 - 'A' as u32 + 10) as i64
    } else {
        0i64
    }
}

} // verus!
