//! Arithmetic signs as cells.

use vstd::prelude::*;
use crate::error::{EncodeError, cells_or};

verus! {

/// The cells of an arithmetic sign.
pub open spec fn spec_encode_char_math_symbol_shortcut(c: char) -> Option<Seq<u8>> {
    match c {
        '+' => Some(seq![34u8]),
        '−' => Some(seq![20u8]),
        '×' => Some(seq![33u8]),
        '÷' => Some(seq![12u8, 12u8]),
        '=' => Some(seq![18u8, 18u8]),
        '>' => Some(seq![34u8, 34u8]),
        '<' => Some(seq![20u8, 20u8]),
        _ => None,
    }
}

/// Computes `spec_encode_char_math_symbol_shortcut`.
pub fn encode_char_math_symbol_shortcut(c: char) -> (r: Result<Vec<u8>, EncodeError>)
    ensures
        cells_or(r, spec_encode_char_math_symbol_shortcut(c), EncodeError::MissingSymbolMapping(c)),
{
    match c {
        '+' => Ok(vec![34u8]),
        '−' => Ok(vec![20u8]),
        '×' => Ok(vec![33u8]),
        '÷' => Ok(vec![12u8, 12u8]),
        '=' => Ok(vec![18u8, 18u8]),
        '>' => Ok(vec![34u8, 34u8]),
        '<' => Ok(vec![20u8, 20u8]),
        _ => Err(EncodeError::MissingSymbolMapping(c)),
    }
}

/// Whether `c` is an arithmetic sign.
pub open spec fn spec_is_math_symbol_char(c: char) -> bool {
    spec_encode_char_math_symbol_shortcut(c) is Some
}

/// Computes `spec_is_math_symbol_char`.
#[verifier::when_used_as_spec(spec_is_math_symbol_char)]
pub fn is_math_symbol_char(c: char) -> (b: bool)
    ensures
        b == spec_is_math_symbol_char(c),
{
    match c {
        '+' => true,
        '−' => true,
        '×' => true,
        '÷' => true,
        '=' => true,
        '>' => true,
        '<' => true,
        _ => false,
    }
}

} // verus!
