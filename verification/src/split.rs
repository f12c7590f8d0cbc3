//! Doubled initial consonants as their plain consonant, twice.

use vstd::prelude::*;
use crate::error::EncodeError;

verus! {

/// An initial consonant as its plain form, and the same form once more
/// where the consonant is a doubled one. No entry for any other character.
pub open spec fn spec_split_korean_jauem(c: char) -> Option<(char, Option<char>)> {
    match c {
        'ㄲ' => Some(('ㄱ', Some('ㄱ'))),
        'ㄸ' => Some(('ㄷ', Some('ㄷ'))),
        'ㅃ' => Some(('ㅂ', Some('ㅂ'))),
        'ㅆ' => Some(('ㅅ', Some('ㅅ'))),
        'ㅉ' => Some(('ㅈ', Some('ㅈ'))),
        'ㄱ' => Some(('ㄱ', None)),
        'ㄴ' => Some(('ㄴ', None)),
        'ㄷ' => Some(('ㄷ', None)),
        'ㄹ' => Some(('ㄹ', None)),
        'ㅁ' => Some(('ㅁ', None)),
        'ㅂ' => Some(('ㅂ', None)),
        'ㅅ' => Some(('ㅅ', None)),
        'ㅇ' => Some(('ㅇ', None)),
        'ㅈ' => Some(('ㅈ', None)),
        'ㅊ' => Some(('ㅊ', None)),
        'ㅋ' => Some(('ㅋ', None)),
        'ㅌ' => Some(('ㅌ', None)),
        'ㅍ' => Some(('ㅍ', None)),
        'ㅎ' => Some(('ㅎ', None)),
        _ => None,
    }
}

/// Computes `spec_split_korean_jauem`.
pub fn split_korean_jauem(c: char) -> (r: Result<(char, Option<char>), EncodeError>)
    ensures
        r == match spec_split_korean_jauem(c) {
            Some(p) => Ok::<(char, Option<char>), EncodeError>(p),
            None => Err(EncodeError::BadSyllableSplit(c)),
        },
{
    match c {
        'ㄲ' => Ok(('ㄱ', Some('ㄱ'))),
        'ㄸ' => Ok(('ㄷ', Some('ㄷ'))),
        'ㅃ' => Ok(('ㅂ', Some('ㅂ'))),
        'ㅆ' => Ok(('ㅅ', Some('ㅅ'))),
        'ㅉ' => Ok(('ㅈ', Some('ㅈ'))),
        'ㄱ' => Ok(('ㄱ', None)),
        'ㄴ' => Ok(('ㄴ', None)),
        'ㄷ' => Ok(('ㄷ', None)),
        'ㄹ' => Ok(('ㄹ', None)),
        'ㅁ' => Ok(('ㅁ', None)),
        'ㅂ' => Ok(('ㅂ', None)),
        'ㅅ' => Ok(('ㅅ', None)),
        'ㅇ' => Ok(('ㅇ', None)),
        'ㅈ' => Ok(('ㅈ', None)),
        'ㅊ' => Ok(('ㅊ', None)),
        'ㅋ' => Ok(('ㅋ', None)),
        'ㅌ' => Ok(('ㅌ', None)),
        'ㅍ' => Ok(('ㅍ', None)),
        'ㅎ' => Ok(('ㅎ', None)),
        _ => Err(EncodeError::BadSyllableSplit(c)),
    }
}

} // verus!
