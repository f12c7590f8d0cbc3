//! Initial and final consonants as cells.

use vstd::prelude::*;
use crate::error::{EncodeError, cells_or};

verus! {

/// The cell of an initial consonant. The doubled consonants have none of
/// their own: they are written as a marker and the plain consonant.
pub open spec fn spec_encode_choseong(c: char) -> Option<u8> {
    match c {
        'ㄱ' => Some(8u8),
        'ㄴ' => Some(9u8),
        'ㄷ' => Some(10u8),
        'ㄹ' => Some(16u8),
        'ㅁ' => Some(17u8),
        'ㅂ' => Some(24u8),
        'ㅅ' => Some(32u8),
        'ㅇ' => Some(27u8),
        'ㅈ' => Some(40u8),
        'ㅊ' => Some(48u8),
        'ㅋ' => Some(11u8),
        'ㅌ' => Some(19u8),
        'ㅍ' => Some(25u8),
        'ㅎ' => Some(26u8),
        _ => None,
    }
}

/// Computes `spec_encode_choseong`.
pub fn encode_choseong(c: char) -> (r: Result<u8, EncodeError>)
    ensures
        r == match spec_encode_choseong(c) {
            Some(b) => Ok::<u8, EncodeError>(b),
            None => Err(EncodeError::MissingKoreanComponent(c)),
        },
{
    match c {
        'ㄱ' => Ok(8u8),
        'ㄴ' => Ok(9u8),
        'ㄷ' => Ok(10u8),
        'ㄹ' => Ok(16u8),
        'ㅁ' => Ok(17u8),
        'ㅂ' => Ok(24u8),
        'ㅅ' => Ok(32u8),
        'ㅇ' => Ok(27u8),
        'ㅈ' => Ok(40u8),
        'ㅊ' => Ok(48u8),
        'ㅋ' => Ok(11u8),
        'ㅌ' => Ok(19u8),
        'ㅍ' => Ok(25u8),
        'ㅎ' => Ok(26u8),
        _ => Err(EncodeError::MissingKoreanComponent(c)),
    }
}

/// The cells of a final consonant; a compound final is its two parts in
/// turn.
pub open spec fn spec_encode_jongseong(c: char) -> Option<Seq<u8>> {
    match c {
        'ㄱ' => Some(seq![1u8]),
        'ㄲ' => Some(seq![1u8, 1u8]),
        'ㄳ' => Some(seq![1u8, 4u8]),
        'ㄴ' => Some(seq![18u8]),
        'ㄵ' => Some(seq![18u8, 5u8]),
        'ㄶ' => Some(seq![18u8, 52u8]),
        'ㄷ' => Some(seq![20u8]),
        'ㄹ' => Some(seq![2u8]),
        'ㄺ' => Some(seq![2u8, 1u8]),
        'ㄻ' => Some(seq![2u8, 34u8]),
        'ㄼ' => Some(seq![2u8, 3u8]),
        'ㄽ' => Some(seq![2u8, 4u8]),
        'ㄾ' => Some(seq![2u8, 38u8]),
        'ㄿ' => Some(seq![2u8, 50u8]),
        'ㅀ' => Some(seq![2u8, 52u8]),
        'ㅁ' => Some(seq![34u8]),
        'ㅂ' => Some(seq![3u8]),
        'ㅄ' => Some(seq![3u8, 4u8]),
        'ㅅ' => Some(seq![4u8]),
        'ㅆ' => Some(seq![12u8]),
        'ㅇ' => Some(seq![54u8]),
        'ㅈ' => Some(seq![5u8]),
        'ㅊ' => Some(seq![6u8]),
        'ㅋ' => Some(seq![22u8]),
        'ㅌ' => Some(seq![38u8]),
        'ㅍ' => Some(seq![50u8]),
        'ㅎ' => Some(seq![52u8]),
        _ => None,
    }
}

/// Computes `spec_encode_jongseong`.
pub fn encode_jongseong(c: char) -> (r: Result<Vec<u8>, EncodeError>)
    ensures
        cells_or(r, spec_encode_jongseong(c), EncodeError::MissingKoreanComponent(c)),
{
    match c {
        'ㄱ' => Ok(vec![1u8]),
        'ㄲ' => Ok(vec![1u8, 1u8]),
        'ㄳ' => Ok(vec![1u8, 4u8]),
        'ㄴ' => Ok(vec![18u8]),
        'ㄵ' => Ok(vec![18u8, 5u8]),
        'ㄶ' => Ok(vec![18u8, 52u8]),
        'ㄷ' => Ok(vec![20u8]),
        'ㄹ' => Ok(vec![2u8]),
        'ㄺ' => Ok(vec![2u8, 1u8]),
        'ㄻ' => Ok(vec![2u8, 34u8]),
        'ㄼ' => Ok(vec![2u8, 3u8]),
        'ㄽ' => Ok(vec![2u8, 4u8]),
        'ㄾ' => Ok(vec![2u8, 38u8]),
        'ㄿ' => Ok(vec![2u8, 50u8]),
        'ㅀ' => Ok(vec![2u8, 52u8]),
        'ㅁ' => Ok(vec![34u8]),
        'ㅂ' => Ok(vec![3u8]),
        'ㅄ' => Ok(vec![3u8, 4u8]),
        'ㅅ' => Ok(vec![4u8]),
        'ㅆ' => Ok(vec![12u8]),
        'ㅇ' => Ok(vec![54u8]),
        'ㅈ' => Ok(vec![5u8]),
        'ㅊ' => Ok(vec![6u8]),
        'ㅋ' => Ok(vec![22u8]),
        'ㅌ' => Ok(vec![38u8]),
        'ㅍ' => Ok(vec![50u8]),
        'ㅎ' => Ok(vec![52u8]),
        _ => Err(EncodeError::MissingKoreanComponent(c)),
    }
}

} // verus!
