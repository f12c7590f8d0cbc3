//! Latin letters as cells.

use vstd::prelude::*;
use crate::error::EncodeError;

verus! {

/// The cell of a Latin letter, the same for both cases.
pub open spec fn spec_encode_english(c: char) -> Option<u8> {
    match c {
        'a' => Some(1u8),
        'b' => Some(3u8),
        'c' => Some(9u8),
        'd' => Some(25u8),
        'e' => Some(17u8),
        'f' => Some(11u8),
        'g' => Some(27u8),
        'h' => Some(19u8),
        'i' => Some(10u8),
        'j' => Some(26u8),
        'k' => Some(5u8),
        'l' => Some(7u8),
        'm' => Some(13u8),
        'n' => Some(29u8),
        'o' => Some(21u8),
        'p' => Some(15u8),
        'q' => Some(31u8),
        'r' => Some(23u8),
        's' => Some(14u8),
        't' => Some(30u8),
        'u' => Some(37u8),
        'v' => Some(39u8),
        'w' => Some(58u8),
        'x' => Some(45u8),
        'y' => Some(61u8),
        'z' => Some(53u8),
        'A' => Some(1u8),
        'B' => Some(3u8),
        'C' => Some(9u8),
        'D' => Some(25u8),
        'E' => Some(17u8),
        'F' => Some(11u8),
        'G' => Some(27u8),
        'H' => Some(19u8),
        'I' => Some(10u8),
        'J' => Some(26u8),
        'K' => Some(5u8),
        'L' => Some(7u8),
        'M' => Some(13u8),
        'N' => Some(29u8),
        'O' => Some(21u8),
        'P' => Some(15u8),
        'Q' => Some(31u8),
        'R' => Some(23u8),
        'S' => Some(14u8),
        'T' => Some(30u8),
        'U' => Some(37u8),
        'V' => Some(39u8),
        'W' => Some(58u8),
        'X' => Some(45u8),
        'Y' => Some(61u8),
        'Z' => Some(53u8),
        _ => None,
    }
}

/// Computes `spec_encode_english`.
pub fn encode_english(c: char) -> (r: Result<u8, EncodeError>)
    ensures
        r == match spec_encode_english(c) {
            Some(b) => Ok::<u8, EncodeError>(b),
            None => Err(EncodeError::UnknownCharacter(c)),
        },
{
    match c {
        'a' => Ok(1u8),
        'b' => Ok(3u8),
        'c' => Ok(9u8),
        'd' => Ok(25u8),
        'e' => Ok(17u8),
        'f' => Ok(11u8),
        'g' => Ok(27u8),
        'h' => Ok(19u8),
        'i' => Ok(10u8),
        'j' => Ok(26u8),
        'k' => Ok(5u8),
        'l' => Ok(7u8),
        'm' => Ok(13u8),
        'n' => Ok(29u8),
        'o' => Ok(21u8),
        'p' => Ok(15u8),
        'q' => Ok(31u8),
        'r' => Ok(23u8),
        's' => Ok(14u8),
        't' => Ok(30u8),
        'u' => Ok(37u8),
        'v' => Ok(39u8),
        'w' => Ok(58u8),
        'x' => Ok(45u8),
        'y' => Ok(61u8),
        'z' => Ok(53u8),
        'A' => Ok(1u8),
        'B' => Ok(3u8),
        'C' => Ok(9u8),
        'D' => Ok(25u8),
        'E' => Ok(17u8),
        'F' => Ok(11u8),
        'G' => Ok(27u8),
        'H' => Ok(19u8),
        'I' => Ok(10u8),
        'J' => Ok(26u8),
        'K' => Ok(5u8),
        'L' => Ok(7u8),
        'M' => Ok(13u8),
        'N' => Ok(29u8),
        'O' => Ok(21u8),
        'P' => Ok(15u8),
        'Q' => Ok(31u8),
        'R' => Ok(23u8),
        'S' => Ok(14u8),
        'T' => Ok(30u8),
        'U' => Ok(37u8),
        'V' => Ok(39u8),
        'W' => Ok(58u8),
        'X' => Ok(45u8),
        'Y' => Ok(61u8),
        'Z' => Ok(53u8),
        _ => Err(EncodeError::UnknownCharacter(c)),
    }
}

} // verus!
