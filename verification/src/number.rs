//! Decimal digits as cells.

use vstd::prelude::*;

verus! {

/// The cell that opens a number.
pub const NUMBER_SIGN: u8 = 60;

/// The cell of a decimal digit; none for any other character.
pub open spec fn spec_encode_number(c: char) -> Option<u8> {
    match c {
        '0' => Some(26u8),
        '1' => Some(1u8),
        '2' => Some(3u8),
        '3' => Some(9u8),
        '4' => Some(25u8),
        '5' => Some(17u8),
        '6' => Some(11u8),
        '7' => Some(27u8),
        '8' => Some(19u8),
        '9' => Some(10u8),
        _ => None,
    }
}

/// Computes `spec_encode_number`.
pub fn encode_number(c: char) -> (r: Option<u8>)
    ensures
        r == spec_encode_number(c),
{
    match c {
        '0' => Some(26u8),
        '1' => Some(1u8),
        '2' => Some(3u8),
        '3' => Some(9u8),
        '4' => Some(25u8),
        '5' => Some(17u8),
        '6' => Some(11u8),
        '7' => Some(27u8),
        '8' => Some(19u8),
        '9' => Some(10u8),
        _ => None,
    }
}

} // verus!
