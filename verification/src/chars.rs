//! Classes of characters.

use vstd::prelude::*;

verus! {

/// A character with Unicode's `White_Space` property.
pub open spec fn space(c: char) -> bool {
    ||| '\u{9}' <= c <= '\u{d}'
    ||| c == ' '
    ||| c == '\u{85}'
    ||| c == '\u{a0}'
    ||| c == '\u{1680}'
    ||| '\u{2000}' <= c <= '\u{200a}'
    ||| c == '\u{2028}'
    ||| c == '\u{2029}'
    ||| c == '\u{202f}'
    ||| c == '\u{205f}'
    ||| c == '\u{3000}'
}

pub open spec fn lower(c: char) -> bool {
    'a' <= c <= 'z'
}

pub open spec fn upper(c: char) -> bool {
    'A' <= c <= 'Z'
}

pub open spec fn digit(c: char) -> bool {
    '0' <= c <= '9'
}

pub open spec fn letter(c: char) -> bool {
    lower(c) || upper(c)
}

pub open spec fn alphanumeric(c: char) -> bool {
    letter(c) || digit(c)
}

/// `c`, an ASCII capital made small.
pub open spec fn lowered(c: char) -> char {
    if upper(c) {
        (c as u32 + 32) as char
    } else {
        c
    }
}

/// `c`, an ASCII small letter made a capital.
pub open spec fn raised(c: char) -> char {
    if lower(c) {
        (c as u32 - 32) as char
    } else {
        c
    }
}

pub fn is_space(c: char) -> (r: bool)
    ensures
        r == space(c),
{
    ('\u{9}' <= c && c <= '\u{d}') || c == ' ' || c == '\u{85}' || c == '\u{a0}' || c == '\u{1680}'
        || ('\u{2000}' <= c && c <= '\u{200a}') || c == '\u{2028}' || c == '\u{2029}' || c
        == '\u{202f}' || c == '\u{205f}' || c == '\u{3000}'
}

pub fn is_lower(c: char) -> (r: bool)
    ensures
        r == lower(c),
{
    'a' <= c && c <= 'z'
}

pub fn is_upper(c: char) -> (r: bool)
    ensures
        r == upper(c),
{
    'A' <= c && c <= 'Z'
}

pub fn is_digit(c: char) -> (r: bool)
    ensures
        r == digit(c),
{
    '0' <= c && c <= '9'
}

pub fn is_letter(c: char) -> (r: bool)
    ensures
        r == letter(c),
{
    is_lower(c) || is_upper(c)
}

pub fn is_alphanumeric(c: char) -> (r: bool)
    ensures
        r == alphanumeric(c),
{
    is_letter(c) || is_digit(c)
}

pub fn to_lower(c: char) -> (r: char)
    ensures
        r == lowered(c),
{
    if is_upper(c) {
        ((c as u8) + 32) as char
    } else {
        c
    }
}

pub fn to_upper(c: char) -> (r: char)
    ensures
        r == raised(c),
{
    if is_lower(c) {
        ((c as u8) - 32) as char
    } else {
        c
    }
}

/// What `char::is_alphanumeric` says of a character.
pub uninterp spec fn unicode_alphanumeric(c: char) -> bool;

/// `char::is_alphanumeric`: Unicode's letters and numbers. The claim is that
/// it depends on the character alone, and that among ASCII it has the letters
/// and the digits.
#[verifier::external_body]
pub(crate) fn is_unicode_alphanumeric(c: char) -> (r: bool)
    ensures
        r == unicode_alphanumeric(c),
        c <= '\u{7f}' ==> r == alphanumeric(c),
{
    c.is_alphanumeric()
}

/// What `char::is_alphabetic` says of a character.
pub uninterp spec fn unicode_alphabetic(c: char) -> bool;

/// `char::is_alphabetic`: Unicode's letters. The claim is that it depends on
/// the character alone, and that among ASCII it has the letters.
#[verifier::external_body]
pub(crate) fn is_unicode_alphabetic(c: char) -> (r: bool)
    ensures
        r == unicode_alphabetic(c),
        c <= '\u{7f}' ==> r == letter(c),
{
    c.is_alphabetic()
}

} // verus!
