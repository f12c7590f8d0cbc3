//! Medial vowels as cells.

use vstd::prelude::*;
use crate::error::{EncodeError, cells_or};

verus! {

/// The cells of a medial vowel.
pub open spec fn spec_encode_jungsong(c: char) -> Option<Seq<u8>> {
    match c {
        'ㅏ' => Some(seq![35u8]),
        'ㅐ' => Some(seq![23u8]),
        'ㅑ' => Some(seq![28u8]),
        'ㅒ' => Some(seq![28u8, 23u8]),
        'ㅓ' => Some(seq![14u8]),
        'ㅔ' => Some(seq![29u8]),
        'ㅕ' => Some(seq![49u8]),
        'ㅖ' => Some(seq![12u8]),
        'ㅗ' => Some(seq![37u8]),
        'ㅘ' => Some(seq![39u8]),
        'ㅙ' => Some(seq![39u8, 23u8]),
        'ㅚ' => Some(seq![61u8]),
        'ㅛ' => Some(seq![44u8]),
        'ㅜ' => Some(seq![13u8]),
        'ㅝ' => Some(seq![15u8]),
        'ㅞ' => Some(seq![15u8, 23u8]),
        'ㅟ' => Some(seq![13u8, 23u8]),
        'ㅠ' => Some(seq![41u8]),
        'ㅡ' => Some(seq![42u8]),
        'ㅢ' => Some(seq![58u8]),
        'ㅣ' => Some(seq![21u8]),
        _ => None,
    }
}

/// Computes `spec_encode_jungsong`.
pub fn encode_jungsong(c: char) -> (r: Result<Vec<u8>, EncodeError>)
    ensures
        cells_or(r, spec_encode_jungsong(c), EncodeError::MissingKoreanComponent(c)),
{
    match c {
        'ㅏ' => Ok(vec![35u8]),
        'ㅐ' => Ok(vec![23u8]),
        'ㅑ' => Ok(vec![28u8]),
        'ㅒ' => Ok(vec![28u8, 23u8]),
        'ㅓ' => Ok(vec![14u8]),
        'ㅔ' => Ok(vec![29u8]),
        'ㅕ' => Ok(vec![49u8]),
        'ㅖ' => Ok(vec![12u8]),
        'ㅗ' => Ok(vec![37u8]),
        'ㅘ' => Ok(vec![39u8]),
        'ㅙ' => Ok(vec![39u8, 23u8]),
        'ㅚ' => Ok(vec![61u8]),
        'ㅛ' => Ok(vec![44u8]),
        'ㅜ' => Ok(vec![13u8]),
        'ㅝ' => Ok(vec![15u8]),
        'ㅞ' => Ok(vec![15u8, 23u8]),
        'ㅟ' => Ok(vec![13u8, 23u8]),
        'ㅠ' => Ok(vec![41u8]),
        'ㅡ' => Ok(vec![42u8]),
        'ㅢ' => Ok(vec![58u8]),
        'ㅣ' => Ok(vec![21u8]),
        _ => Err(EncodeError::MissingKoreanComponent(c)),
    }
}

} // verus!
