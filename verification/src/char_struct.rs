//! The classes of input characters, and a Hangul syllable taken apart.

use vstd::prelude::*;
use crate::error::EncodeError;
use crate::math_symbol_shortcut::is_math_symbol_char;
use crate::symbol_shortcut::is_symbol_char;
use crate::utils::{
    is_ascii_alphabetic, is_ascii_digit, is_korean_char, is_korean_part, is_whitespace,
};
use crate::fraction::is_unicode_fraction;

verus! {

/// A syllable as its three letters. `jong` is `None` where the syllable
/// ends in its vowel.
#[derive(Clone, Copy, Debug, PartialEq, Eq, Structural)]
pub struct KoreanChar {
    pub cho: char,
    pub jung: char,
    pub jong: Option<char>,
}

/// The initial consonants in the order of the syllable block.
pub open spec fn spec_cho_at(i: u32) -> char {
    match i {
        0 => 'ㄱ',
        1 => 'ㄲ',
        2 => 'ㄴ',
        3 => 'ㄷ',
        4 => 'ㄸ',
        5 => 'ㄹ',
        6 => 'ㅁ',
        7 => 'ㅂ',
        8 => 'ㅃ',
        9 => 'ㅅ',
        10 => 'ㅆ',
        11 => 'ㅇ',
        12 => 'ㅈ',
        13 => 'ㅉ',
        14 => 'ㅊ',
        15 => 'ㅋ',
        16 => 'ㅌ',
        17 => 'ㅍ',
        _ => 'ㅎ',
    }
}

/// The medial vowels in the order of the syllable block.
pub open spec fn spec_jung_at(i: u32) -> char {
    match i {
        0 => 'ㅏ',
        1 => 'ㅐ',
        2 => 'ㅑ',
        3 => 'ㅒ',
        4 => 'ㅓ',
        5 => 'ㅔ',
        6 => 'ㅕ',
        7 => 'ㅖ',
        8 => 'ㅗ',
        9 => 'ㅘ',
        10 => 'ㅙ',
        11 => 'ㅚ',
        12 => 'ㅛ',
        13 => 'ㅜ',
        14 => 'ㅝ',
        15 => 'ㅞ',
        16 => 'ㅟ',
        17 => 'ㅠ',
        18 => 'ㅡ',
        19 => 'ㅢ',
        _ => 'ㅣ',
    }
}

/// The final consonants in the order of the syllable block; 0 is no final.
pub open spec fn spec_jong_at(i: u32) -> Option<char> {
    match i {
        0 => None,
        1 => Some('ㄱ'),
        2 => Some('ㄲ'),
        3 => Some('ㄳ'),
        4 => Some('ㄴ'),
        5 => Some('ㄵ'),
        6 => Some('ㄶ'),
        7 => Some('ㄷ'),
        8 => Some('ㄹ'),
        9 => Some('ㄺ'),
        10 => Some('ㄻ'),
        11 => Some('ㄼ'),
        12 => Some('ㄽ'),
        13 => Some('ㄾ'),
        14 => Some('ㄿ'),
        15 => Some('ㅀ'),
        16 => Some('ㅁ'),
        17 => Some('ㅂ'),
        18 => Some('ㅄ'),
        19 => Some('ㅅ'),
        20 => Some('ㅆ'),
        21 => Some('ㅇ'),
        22 => Some('ㅈ'),
        23 => Some('ㅊ'),
        24 => Some('ㅋ'),
        25 => Some('ㅌ'),
        26 => Some('ㅍ'),
        _ => Some('ㅎ'),
    }
}

/// The letters of the syllable `c`, by the arithmetic of the syllable block:
/// 19 initials times 21 medials times 28 finals, from U+AC00.
pub open spec fn spec_decompose(c: char) -> KoreanChar {
    let b = (c as u32 - 0xAC00) as u32;
    KoreanChar {
        cho: spec_cho_at((b / 588) as u32),
        jung: spec_jung_at(((b % 588) / 28) as u32),
        jong: spec_jong_at((b % 28) as u32),
    }
}

fn cho_at(i: u32) -> (c: char)
    ensures
        c == spec_cho_at(i),
{
    match i {
        0 => 'ㄱ',
        1 => 'ㄲ',
        2 => 'ㄴ',
        3 => 'ㄷ',
        4 => 'ㄸ',
        5 => 'ㄹ',
        6 => 'ㅁ',
        7 => 'ㅂ',
        8 => 'ㅃ',
        9 => 'ㅅ',
        10 => 'ㅆ',
        11 => 'ㅇ',
        12 => 'ㅈ',
        13 => 'ㅉ',
        14 => 'ㅊ',
        15 => 'ㅋ',
        16 => 'ㅌ',
        17 => 'ㅍ',
        _ => 'ㅎ',
    }
}

fn jung_at(i: u32) -> (c: char)
    ensures
        c == spec_jung_at(i),
{
    match i {
        0 => 'ㅏ',
        1 => 'ㅐ',
        2 => 'ㅑ',
        3 => 'ㅒ',
        4 => 'ㅓ',
        5 => 'ㅔ',
        6 => 'ㅕ',
        7 => 'ㅖ',
        8 => 'ㅗ',
        9 => 'ㅘ',
        10 => 'ㅙ',
        11 => 'ㅚ',
        12 => 'ㅛ',
        13 => 'ㅜ',
        14 => 'ㅝ',
        15 => 'ㅞ',
        16 => 'ㅟ',
        17 => 'ㅠ',
        18 => 'ㅡ',
        19 => 'ㅢ',
        _ => 'ㅣ',
    }
}

fn jong_at(i: u32) -> (c: Option<char>)
    ensures
        c == spec_jong_at(i),
{
    match i {
        0 => None,
        1 => Some('ㄱ'),
        2 => Some('ㄲ'),
        3 => Some('ㄳ'),
        4 => Some('ㄴ'),
        5 => Some('ㄵ'),
        6 => Some('ㄶ'),
        7 => Some('ㄷ'),
        8 => Some('ㄹ'),
        9 => Some('ㄺ'),
        10 => Some('ㄻ'),
        11 => Some('ㄼ'),
        12 => Some('ㄽ'),
        13 => Some('ㄾ'),
        14 => Some('ㄿ'),
        15 => Some('ㅀ'),
        16 => Some('ㅁ'),
        17 => Some('ㅂ'),
        18 => Some('ㅄ'),
        19 => Some('ㅅ'),
        20 => Some('ㅆ'),
        21 => Some('ㅇ'),
        22 => Some('ㅈ'),
        23 => Some('ㅊ'),
        24 => Some('ㅋ'),
        25 => Some('ㅌ'),
        26 => Some('ㅍ'),
        _ => Some('ㅎ'),
    }
}

impl KoreanChar {
    /// Takes the syllable `c` apart. A character outside the syllable block
    /// is refused.
    pub fn new(c: char) -> (r: Result<KoreanChar, EncodeError>)
        ensures
            r == (if is_korean_char(c) {
                Ok::<KoreanChar, EncodeError>(spec_decompose(c))
            } else {
                Err(EncodeError::UnknownCharacter(c))
            }),
    {
        if !is_korean_char(c) {
            return Err(EncodeError::UnknownCharacter(c));
        }
        let b: u32 = c as u32 - 0xAC00;
        Ok(KoreanChar { cho: cho_at(b / 588), jung: jung_at((b % 588) / 28), jong: jong_at(b % 28) })
    }
}

/// What an input character is to the encoder.
#[derive(Clone, Copy, Debug, PartialEq, Eq, Structural)]
pub enum CharType {
    Korean(KoreanChar),
    KoreanPart(char),
    English(char),
    Number(char),
    Symbol(char),
    Space(char),
    MathSymbol(char),
    Fraction(char),
}

/// The class of `c`. The classes do not overlap; a character in none of
/// them is unknown.
pub open spec fn spec_classify(c: char) -> Result<CharType, EncodeError> {
    if is_korean_char(c) {
        Ok(CharType::Korean(spec_decompose(c)))
    } else if is_korean_part(c) {
        Ok(CharType::KoreanPart(c))
    } else if is_ascii_alphabetic(c) {
        Ok(CharType::English(c))
    } else if is_ascii_digit(c) {
        Ok(CharType::Number(c))
    } else if is_symbol_char(c) {
        Ok(CharType::Symbol(c))
    } else if is_math_symbol_char(c) {
        Ok(CharType::MathSymbol(c))
    } else if is_unicode_fraction(c) {
        Ok(CharType::Fraction(c))
    } else if is_whitespace(c) {
        Ok(CharType::Space(c))
    } else {
        Err(EncodeError::UnknownCharacter(c))
    }
}

impl CharType {
    /// Classes the character `c`.
    pub fn new(c: char) -> (r: Result<CharType, EncodeError>)
        ensures
            r == spec_classify(c),
    {
        if is_korean_char(c) {
            let b: u32 = c as u32 - 0xAC00;
            Ok(
                CharType::Korean(
                    KoreanChar {
                        cho: cho_at(b / 588),
                        jung: jung_at((b % 588) / 28),
                        jong: jong_at(b % 28),
                    },
                ),
            )
        } else if is_korean_part(c) {
            Ok(CharType::KoreanPart(c))
        } else if is_ascii_alphabetic(c) {
            Ok(CharType::English(c))
        } else if is_ascii_digit(c) {
            Ok(CharType::Number(c))
        } else if is_symbol_char(c) {
            Ok(CharType::Symbol(c))
        } else if is_math_symbol_char(c) {
            Ok(CharType::MathSymbol(c))
        } else if is_unicode_fraction(c) {
            Ok(CharType::Fraction(c))
        } else if is_whitespace(c) {
            Ok(CharType::Space(c))
        } else {
            Err(EncodeError::UnknownCharacter(c))
        }
    }
}

} // verus!
