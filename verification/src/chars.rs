//! Character classes and the few facts about the standard library's text types
//! that the lexer relies on without proof.

use vstd::prelude::*;

verus! {

/// The answer of `char::is_alphabetic` for `c`: whether `c` has Unicode's
/// `Alphabetic` property. The tables behind it are not modelled.
pub uninterp spec fn unicode_alphabetic(c: char) -> bool;

/// The answer of `char::is_numeric` for `c`: whether `c` lies in one of
/// Unicode's numeric general categories. The tables behind it are not modelled.
pub uninterp spec fn unicode_numeric(c: char) -> bool;

/// A character that may continue an identifier: alphabetic or numeric.
pub open spec fn unicode_alphanumeric(c: char) -> bool {
    unicode_alphabetic(c) || unicode_numeric(c)
}

/// Assumed of `char::is_alphabetic`: it is a function of the character alone,
/// named [`unicode_alphabetic`].
pub assume_specification[ char::is_alphabetic ](c: char) -> (b: bool)
    ensures
        b == unicode_alphabetic(c),
;

/// Assumed of `char::is_alphanumeric`: as its documentation says, it holds
/// exactly when `is_alphabetic` or `is_numeric` does.
pub assume_specification[ char::is_alphanumeric ](c: char) -> (b: bool)
    ensures
        b == (unicode_alphabetic(c) || unicode_numeric(c)),
;

/// Assumed of `String::push`: it appends the character to the end of the string.
pub assume_specification[ std::string::String::push ](s: &mut std::string::String, c: char)
    ensures
        final(s)@ == old(s)@.push(c),
;

/// The text of each line, in order.
pub open spec fn texts(lines: Seq<String>) -> Seq<Seq<char>> {
    Seq::new(lines.len(), |i: int| lines[i]@)
}

/// Space, tab, carriage return and line feed separate tokens and mean nothing else.
pub open spec fn is_blank(c: char) -> bool {
    c == ' ' || c == '\t' || c == '\r' || c == '\n'
}

/// The ten ASCII decimal digits.
pub open spec fn is_digit(c: char) -> bool {
    '0' <= c && c <= '9'
}

/// The number that a decimal digit stands for.
pub open spec fn digit_value(c: char) -> nat
    recommends
        is_digit(c),
{
    (c as int - '0' as int) as nat
}

/// Whether `c` is a blank.
pub fn blank(c: char) -> (b: bool)
    ensures
        b == is_blank(c),
{
    c == ' ' || c == '\t' || c == '\r' || c == '\n'
}

/// Whether `c` is a decimal digit.
pub fn digit(c: char) -> (b: bool)
    ensures
        b == is_digit(c),
{
    '0' <= c && c <= '9'
}

/// The number that the decimal digit `c` stands for.
pub fn value_of_digit(c: char) -> (v: i64)
    requires
        is_digit(c),
    ensures
        v == digit_value(c),
        0 <= v <= 9,
{
    let code: u32 = c as u32;
    let zero: u32 = '0' as u32;
    (code - zero) as i64
}

} // verus!
