//! Consonant and vowel letters that stand on their own.

use vstd::prelude::*;
use crate::error::{EncodeError, cells_or};

verus! {

/// The cells of a letter written by itself: a consonant in the form it has
/// as a final, a vowel in the form it has as a medial.
pub open spec fn spec_encode_korean_part(c: char) -> Option<Seq<u8>> {
    match c {
        'ㄱ' => Some(seq![1u8]),
        'ㄲ' => Some(seq![1u8, 1u8]),
        'ㄳ' => Some(seq![1u8, 4u8]),
        'ㄴ' => Some(seq![18u8]),
        'ㄵ' => Some(seq![18u8, 5u8]),
        'ㄶ' => Some(seq![18u8, 52u8]),
        'ㄷ' => Some(seq![20u8]),
        'ㄸ' => Some(seq![20u8, 20u8]),
        'ㄹ' => Some(seq![2u8]),
        'ㄺ' => Some(seq![2u8, 1u8]),
        'ㄻ' => Some(seq![2u8, 34u8]),
        'ㄼ' => Some(seq![2u8, 3u8]),
        'ㄽ' => Some(seq![2u8, 4u8]),
        'ㄾ' => Some(seq![2u8, 38u8]),
        'ㄿ' => Some(seq![2u8, 50u8]),
        'ㅀ' => Some(seq![2u8, 52u8]),
        'ㅁ' => Some(seq![34u8]),
        'ㅂ' => Some(seq![3u8]),
        'ㅃ' => Some(seq![3u8, 3u8]),
        'ㅄ' => Some(seq![3u8, 4u8]),
        'ㅅ' => Some(seq![4u8]),
        'ㅆ' => Some(seq![12u8]),
        'ㅇ' => Some(seq![54u8]),
        'ㅈ' => Some(seq![5u8]),
        'ㅉ' => Some(seq![5u8, 5u8]),
        'ㅊ' => Some(seq![6u8]),
        'ㅋ' => Some(seq![22u8]),
        'ㅌ' => Some(seq![38u8]),
        'ㅍ' => Some(seq![50u8]),
        'ㅎ' => Some(seq![52u8]),
        'ㅏ' => Some(seq![35u8]),
        'ㅐ' => Some(seq![23u8]),
        'ㅑ' => Some(seq![28u8]),
        'ㅒ' => Some(seq![28u8, 23u8]),
        'ㅓ' => Some(seq![14u8]),
        'ㅔ' => Some(seq![29u8]),
        'ㅕ' => Some(seq![49u8]),
        'ㅖ' => Some(seq![12u8]),
        'ㅗ' => Some(seq![37u8]),
        'ㅘ' => Some(seq![39u8]),
        'ㅙ' => Some(seq![39u8, 23u8]),
        'ㅚ' => Some(seq![61u8]),
        'ㅛ' => Some(seq![44u8]),
        'ㅜ' => Some(seq![13u8]),
        'ㅝ' => Some(seq![15u8]),
        'ㅞ' => Some(seq![15u8, 23u8]),
        'ㅟ' => Some(seq![13u8, 23u8]),
        'ㅠ' => Some(seq![41u8]),
        'ㅡ' => Some(seq![42u8]),
        'ㅢ' => Some(seq![58u8]),
        'ㅣ' => Some(seq![21u8]),
        _ => None,
    }
}

/// Computes `spec_encode_korean_part`.
pub fn encode_korean_part(c: char) -> (r: Result<Vec<u8>, EncodeError>)
    ensures
        cells_or(r, spec_encode_korean_part(c), EncodeError::MissingKoreanComponent(c)),
{
    match c {
        'ㄱ' => Ok(vec![1u8]),
        'ㄲ' => Ok(vec![1u8, 1u8]),
        'ㄳ' => Ok(vec![1u8, 4u8]),
        'ㄴ' => Ok(vec![18u8]),
        'ㄵ' => Ok(vec![18u8, 5u8]),
        'ㄶ' => Ok(vec![18u8, 52u8]),
        'ㄷ' => Ok(vec![20u8]),
        'ㄸ' => Ok(vec![20u8, 20u8]),
        'ㄹ' => Ok(vec![2u8]),
        'ㄺ' => Ok(vec![2u8, 1u8]),
        'ㄻ' => Ok(vec![2u8, 34u8]),
        'ㄼ' => Ok(vec![2u8, 3u8]),
        'ㄽ' => Ok(vec![2u8, 4u8]),
        'ㄾ' => Ok(vec![2u8, 38u8]),
        'ㄿ' => Ok(vec![2u8, 50u8]),
        'ㅀ' => Ok(vec![2u8, 52u8]),
        'ㅁ' => Ok(vec![34u8]),
        'ㅂ' => Ok(vec![3u8]),
        'ㅃ' => Ok(vec![3u8, 3u8]),
        'ㅄ' => Ok(vec![3u8, 4u8]),
        'ㅅ' => Ok(vec![4u8]),
        'ㅆ' => Ok(vec![12u8]),
        'ㅇ' => Ok(vec![54u8]),
        'ㅈ' => Ok(vec![5u8]),
        'ㅉ' => Ok(vec![5u8, 5u8]),
        'ㅊ' => Ok(vec![6u8]),
        'ㅋ' => Ok(vec![22u8]),
        'ㅌ' => Ok(vec![38u8]),
        'ㅍ' => Ok(vec![50u8]),
        'ㅎ' => Ok(vec![52u8]),
        'ㅏ' => Ok(vec![35u8]),
        'ㅐ' => Ok(vec![23u8]),
        'ㅑ' => Ok(vec![28u8]),
        'ㅒ' => Ok(vec![28u8, 23u8]),
        'ㅓ' => Ok(vec![14u8]),
        'ㅔ' => Ok(vec![29u8]),
        'ㅕ' => Ok(vec![49u8]),
        'ㅖ' => Ok(vec![12u8]),
        'ㅗ' => Ok(vec![37u8]),
        'ㅘ' => Ok(vec![39u8]),
        'ㅙ' => Ok(vec![39u8, 23u8]),
        'ㅚ' => Ok(vec![61u8]),
        'ㅛ' => Ok(vec![44u8]),
        'ㅜ' => Ok(vec![13u8]),
        'ㅝ' => Ok(vec![15u8]),
        'ㅞ' => Ok(vec![15u8, 23u8]),
        'ㅟ' => Ok(vec![13u8, 23u8]),
        'ㅠ' => Ok(vec![41u8]),
        'ㅡ' => Ok(vec![42u8]),
        'ㅢ' => Ok(vec![58u8]),
        'ㅣ' => Ok(vec![21u8]),
        _ => Err(EncodeError::MissingKoreanComponent(c)),
    }
}

} // verus!
