//! Predicates on single characters.

use vstd::prelude::*;

verus! {

/// A Latin capital, `A` to `Z`.
pub open spec fn spec_is_ascii_uppercase(c: char) -> bool {
    0x41 <= c as u32 <= 0x5A
}

/// A Latin letter in lower case, `a` to `z`.
pub open spec fn spec_is_ascii_lowercase(c: char) -> bool {
    0x61 <= c as u32 <= 0x7A
}

/// A Latin letter of either case.
pub open spec fn spec_is_ascii_alphabetic(c: char) -> bool {
    spec_is_ascii_uppercase(c) || spec_is_ascii_lowercase(c)
}

/// A decimal digit, `0` to `9`.
pub open spec fn spec_is_ascii_digit(c: char) -> bool {
    0x30 <= c as u32 <= 0x39
}

/// The letter in lower case; any other character as it is.
pub open spec fn spec_ascii_lower(c: char) -> char {
    if spec_is_ascii_uppercase(c) {
        ((c as u32 + 0x20) as u32) as char
    } else {
        c
    }
}

/// A precomposed Hangul syllable.
pub open spec fn spec_is_korean_char(c: char) -> bool {
    0xAC00 <= c as u32 <= 0xD7A3
}

/// A Hangul compatibility jamo: a consonant or vowel letter on its own.
pub open spec fn spec_is_korean_part(c: char) -> bool {
    0x3131 <= c as u32 <= 0x3163
}

/// A syllable whose initial consonant is the silent one.
pub open spec fn spec_has_choseong_o(c: char) -> bool {
    spec_is_korean_char(c) && (c as u32 - 0xAC00) / 588 == 11
}

/// A character with the Unicode property White_Space.
pub open spec fn spec_is_whitespace(c: char) -> bool {
    let u = c as u32;
    ||| 0x09 <= u <= 0x0D
    ||| u == 0x20
    ||| u == 0x85
    ||| u == 0xA0
    ||| u == 0x1680
    ||| 0x2000 <= u <= 0x200A
    ||| u == 0x2028
    ||| u == 0x2029
    ||| u == 0x202F
    ||| u == 0x205F
    ||| u == 0x3000
}

/// Computes `spec_is_ascii_uppercase`.
#[verifier::when_used_as_spec(spec_is_ascii_uppercase)]
pub fn is_ascii_uppercase(c: char) -> (b: bool)
    ensures
        b == spec_is_ascii_uppercase(c),
{
    let u: u32 = c as u32;
    0x41 <= u && u <= 0x5A
}

/// Computes `spec_is_ascii_lowercase`.
#[verifier::when_used_as_spec(spec_is_ascii_lowercase)]
pub fn is_ascii_lowercase(c: char) -> (b: bool)
    ensures
        b == spec_is_ascii_lowercase(c),
{
    let u: u32 = c as u32;
    0x61 <= u && u <= 0x7A
}

/// Computes `spec_is_ascii_alphabetic`.
#[verifier::when_used_as_spec(spec_is_ascii_alphabetic)]
pub fn is_ascii_alphabetic(c: char) -> (b: bool)
    ensures
        b == spec_is_ascii_alphabetic(c),
{
    is_ascii_uppercase(c) || is_ascii_lowercase(c)
}

/// Computes `spec_is_ascii_digit`.
#[verifier::when_used_as_spec(spec_is_ascii_digit)]
pub fn is_ascii_digit(c: char) -> (b: bool)
    ensures
        b == spec_is_ascii_digit(c),
{
    let u: u32 = c as u32;
    0x30 <= u && u <= 0x39
}

/// Computes `spec_ascii_lower`.
#[verifier::when_used_as_spec(spec_ascii_lower)]
pub fn ascii_lower(c: char) -> (l: char)
    ensures
        l == spec_ascii_lower(c),
{
    if is_ascii_uppercase(c) {
        let u: u32 = c as u32 + 0x20;
        match char::from_u32(u) {
            Some(l) => l,
            None => c,
        }
    } else {
        c
    }
}

/// Computes `spec_is_korean_char`.
#[verifier::when_used_as_spec(spec_is_korean_char)]
pub fn is_korean_char(c: char) -> (b: bool)
    ensures
        b == spec_is_korean_char(c),
{
    let u: u32 = c as u32;
    0xAC00 <= u && u <= 0xD7A3
}

/// Computes `spec_is_korean_part`.
#[verifier::when_used_as_spec(spec_is_korean_part)]
pub fn is_korean_part(c: char) -> (b: bool)
    ensures
        b == spec_is_korean_part(c),
{
    let u: u32 = c as u32;
    0x3131 <= u && u <= 0x3163
}

/// Computes `spec_has_choseong_o`.
#[verifier::when_used_as_spec(spec_has_choseong_o)]
pub fn has_choseong_o(c: char) -> (b: bool)
    ensures
        b == spec_has_choseong_o(c),
{
    let u: u32 = c as u32;
    0xAC00 <= u && u <= 0xD7A3 && (u - 0xAC00) / 588 == 11
}

/// Computes `spec_is_whitespace`.
#[verifier::when_used_as_spec(spec_is_whitespace)]
pub fn is_whitespace(c: char) -> (b: bool)
    ensures
        b == spec_is_whitespace(c),
{
    let u: u32 = c as u32;
    (0x09 <= u && u <= 0x0D) || u == 0x20 || u == 0x85 || u == 0xA0 || u == 0x1680 || (0x2000
        <= u && u <= 0x200A) || u == 0x2028 || u == 0x2029 || u == 0x202F || u == 0x205F || u
        == 0x3000
}

} // verus!
