//! Character classes of the lexical grammar.
use vstd::prelude::*;

verus! {

/// Whether `c` has the Unicode property `Alphabetic`.
pub uninterp spec fn char_is_alphabetic(c: char) -> bool;

/// Whether `c` belongs to one of the Unicode numeric categories.
pub uninterp spec fn char_is_numeric(c: char) -> bool;

/// Whether `c` has the Unicode property `White_Space`.
pub uninterp spec fn char_is_whitespace(c: char) -> bool;

/// `char::is_alphabetic` of the standard library: the answer depends on the
/// character alone and is given the name `char_is_alphabetic`.
pub assume_specification[ char::is_alphabetic ](c: char) -> (r: bool)
    ensures
        r == char_is_alphabetic(c),
;

/// `char::is_numeric` of the standard library: the answer depends on the
/// character alone and is given the name `char_is_numeric`.
pub assume_specification[ char::is_numeric ](c: char) -> (r: bool)
    ensures
        r == char_is_numeric(c),
;

/// `char::is_whitespace` of the standard library: the answer depends on the
/// character alone and is given the name `char_is_whitespace`.
pub assume_specification[ char::is_whitespace ](c: char) -> (r: bool)
    ensures
        r == char_is_whitespace(c),
;

/// An ASCII decimal digit.
pub open spec fn is_digit(c: char) -> bool {
    '0' <= c && c <= '9'
}

/// A character that may continue an identifier: a letter, a numeric
/// character or an underscore.
pub open spec fn is_ident_char(c: char) -> bool {
    char_is_alphabetic(c) || char_is_numeric(c) || c == '_'
}

/// A character that may start an identifier or a keyword.
pub open spec fn is_ident_start(c: char) -> bool {
    char_is_alphabetic(c) || c == '_'
}

/// A character that may continue a decimal literal: a digit, the decimal
/// point or an exponent mark.
pub open spec fn is_number_char(c: char) -> bool {
    is_digit(c) || c == 'e' || c == 'E' || c == '.'
}

/// One of the marks that turn a decimal literal into a float literal.
pub open spec fn is_float_mark(c: char) -> bool {
    c == 'e' || c == 'E' || c == '.'
}

/// A digit of a hexadecimal literal, in either case.
pub open spec fn is_hexa_int_char(c: char) -> bool {
    is_digit(c) || ('a' <= c && c <= 'f') || ('A' <= c && c <= 'F')
}

/// A digit of a binary literal.
pub open spec fn is_bin_int_char(c: char) -> bool {
    c == '0' || c == '1'
}

pub fn ident_char(x: &char) -> (r: bool)
    ensures
        r == is_ident_char(*x),
{
    let c: char = *x;
    c.is_alphabetic() || c.is_numeric() || c == '_'
}

pub fn number_char(x: &char) -> (r: bool)
    ensures
        r == is_number_char(*x),
{
    let c: char = *x;
    ('0' <= c && c <= '9') || c == 'e' || c == 'E' || c == '.'
}

pub fn hexa_int_char(x: &char) -> (r: bool)
    ensures
        r == is_hexa_int_char(*x),
{
    let c: char = *x;
    ('0' <= c && c <= '9') || ('a' <= c && c <= 'f') || ('A' <= c && c <= 'F')
}

pub fn bin_int_char(x: &char) -> (r: bool)
    ensures
        r == is_bin_int_char(*x),
{
    let c: char = *x;
    c == '0' || c == '1'
}

/// Whether `x` is a sign, as may follow an exponent mark.
pub fn sign_char(x: &char) -> (r: bool)
    ensures
        r == (*x == '-' || *x == '+'),
{
    let c: char = *x;
    c == '-' || c == '+'
}

/// Whether `x` is anything but a line feed.
pub fn line_char(x: &char) -> (r: bool)
    ensures
        r == (*x != '\n'),
{
    let c: char = *x;
    c != '\n'
}

/// Whether `x` is white space.
pub fn space_char(x: &char) -> (r: bool)
    ensures
        r == char_is_whitespace(*x),
{
    let c: char = *x;
    c.is_whitespace()
}

} // verus!
