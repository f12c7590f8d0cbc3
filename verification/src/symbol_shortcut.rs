//! Punctuation as cells, in Korean context and in Latin context.

use vstd::prelude::*;
use crate::error::{EncodeError, cells_or, cells_opt};

verus! {

/// The cells of a punctuation mark in Korean context.
pub open spec fn spec_encode_char_symbol_shortcut(c: char) -> Option<Seq<u8>> {
    match c {
        '"' => Some(seq![38u8]),
        '\'' => Some(seq![32u8, 38u8]),
        '~' => Some(seq![8u8, 20u8]),
        '…' => Some(seq![50u8, 50u8, 50u8]),
        '⋯' => Some(seq![32u8, 32u8, 32u8]),
        '!' => Some(seq![22u8]),
        '.' => Some(seq![50u8]),
        ',' => Some(seq![16u8]),
        '?' => Some(seq![38u8]),
        '“' => Some(seq![38u8]),
        '”' => Some(seq![52u8]),
        ':' => Some(seq![16u8, 2u8]),
        ';' => Some(seq![48u8, 6u8]),
        '_' => Some(seq![36u8]),
        '*' => Some(seq![16u8, 20u8]),
        '(' => Some(seq![38u8, 4u8]),
        ')' => Some(seq![32u8, 52u8]),
        '{' => Some(seq![38u8, 2u8]),
        '}' => Some(seq![16u8, 52u8]),
        '[' => Some(seq![38u8, 6u8]),
        ']' => Some(seq![48u8, 52u8]),
        '·' => Some(seq![16u8, 6u8]),
        '「' => Some(seq![16u8, 38u8]),
        '」' => Some(seq![52u8, 2u8]),
        '『' => Some(seq![48u8, 38u8]),
        '』' => Some(seq![52u8, 6u8]),
        '/' => Some(seq![56u8, 12u8]),
        '〈' => Some(seq![16u8, 54u8]),
        '〉' => Some(seq![54u8, 2u8]),
        '《' => Some(seq![48u8, 54u8]),
        '》' => Some(seq![54u8, 6u8]),
        '―' => Some(seq![36u8, 36u8]),
        '-' => Some(seq![36u8]),
        '∼' => Some(seq![8u8, 20u8]),
        '‘' => Some(seq![32u8, 38u8]),
        '’' => Some(seq![52u8, 4u8]),
        '○' => Some(seq![56u8, 52u8, 7u8]),
        '△' => Some(seq![56u8, 44u8, 7u8]),
        '□' => Some(seq![56u8, 54u8, 7u8]),
        'ː' => Some(seq![32u8, 4u8]),
        '〃' => Some(seq![52u8, 52u8]),
        _ => None,
    }
}

/// The cells of a punctuation mark in Korean context, or the error that
/// names the mark.
pub fn symbol_cells(text: char) -> (r: Result<Vec<u8>, EncodeError>)
    ensures
        cells_or(r, spec_encode_char_symbol_shortcut(text), EncodeError::MissingSymbolMapping(text)),
{
    match text {
        '"' => Ok(vec![38u8]),
        '\'' => Ok(vec![32u8, 38u8]),
        '~' => Ok(vec![8u8, 20u8]),
        '…' => Ok(vec![50u8, 50u8, 50u8]),
        '⋯' => Ok(vec![32u8, 32u8, 32u8]),
        '!' => Ok(vec![22u8]),
        '.' => Ok(vec![50u8]),
        ',' => Ok(vec![16u8]),
        '?' => Ok(vec![38u8]),
        '“' => Ok(vec![38u8]),
        '”' => Ok(vec![52u8]),
        ':' => Ok(vec![16u8, 2u8]),
        ';' => Ok(vec![48u8, 6u8]),
        '_' => Ok(vec![36u8]),
        '*' => Ok(vec![16u8, 20u8]),
        '(' => Ok(vec![38u8, 4u8]),
        ')' => Ok(vec![32u8, 52u8]),
        '{' => Ok(vec![38u8, 2u8]),
        '}' => Ok(vec![16u8, 52u8]),
        '[' => Ok(vec![38u8, 6u8]),
        ']' => Ok(vec![48u8, 52u8]),
        '·' => Ok(vec![16u8, 6u8]),
        '「' => Ok(vec![16u8, 38u8]),
        '」' => Ok(vec![52u8, 2u8]),
        '『' => Ok(vec![48u8, 38u8]),
        '』' => Ok(vec![52u8, 6u8]),
        '/' => Ok(vec![56u8, 12u8]),
        '〈' => Ok(vec![16u8, 54u8]),
        '〉' => Ok(vec![54u8, 2u8]),
        '《' => Ok(vec![48u8, 54u8]),
        '》' => Ok(vec![54u8, 6u8]),
        '―' => Ok(vec![36u8, 36u8]),
        '-' => Ok(vec![36u8]),
        '∼' => Ok(vec![8u8, 20u8]),
        '‘' => Ok(vec![32u8, 38u8]),
        '’' => Ok(vec![52u8, 4u8]),
        '○' => Ok(vec![56u8, 52u8, 7u8]),
        '△' => Ok(vec![56u8, 44u8, 7u8]),
        '□' => Ok(vec![56u8, 54u8, 7u8]),
        'ː' => Ok(vec![32u8, 4u8]),
        '〃' => Ok(vec![52u8, 52u8]),
        _ => Err(EncodeError::MissingSymbolMapping(text)),
    }
}

/// Whether `c` is a punctuation mark with cells in Korean context.
/// The message for a mark without cells.
pub open spec fn spec_no_symbol_message() -> Seq<char> {
    EncodeError::MissingSymbolMapping(' ').spec_message()
}

/// The cells of a punctuation mark in Korean context, or a message for a
/// character that is none.
pub fn encode_char_symbol_shortcut(text: char) -> (r: Result<Vec<u8>, String>)
    ensures
        match spec_encode_char_symbol_shortcut(text) {
            Some(cells) => r matches Ok(v) && v@ == cells,
            None => r matches Err(m) && m@ == spec_no_symbol_message(),
        },
{
    match symbol_cells(text) {
        Ok(cells) => Ok(cells),
        Err(e) => Err(e.message()),
    }
}

/// Whether `c` is a punctuation mark with cells in Korean context.
pub open spec fn spec_is_symbol_char(c: char) -> bool {
    spec_encode_char_symbol_shortcut(c) is Some
}

/// Computes `spec_is_symbol_char`.
#[verifier::when_used_as_spec(spec_is_symbol_char)]
pub fn is_symbol_char(text: char) -> (b: bool)
    ensures
        b == spec_is_symbol_char(text),
{
    match text {
        '"' => true,
        '\'' => true,
        '~' => true,
        '…' => true,
        '⋯' => true,
        '!' => true,
        '.' => true,
        ',' => true,
        '?' => true,
        '“' => true,
        '”' => true,
        ':' => true,
        ';' => true,
        '_' => true,
        '*' => true,
        '(' => true,
        ')' => true,
        '{' => true,
        '}' => true,
        '[' => true,
        ']' => true,
        '·' => true,
        '「' => true,
        '」' => true,
        '『' => true,
        '』' => true,
        '/' => true,
        '〈' => true,
        '〉' => true,
        '《' => true,
        '》' => true,
        '―' => true,
        '-' => true,
        '∼' => true,
        '‘' => true,
        '’' => true,
        '○' => true,
        '△' => true,
        '□' => true,
        'ː' => true,
        '〃' => true,
        _ => false,
    }
}

/// The cells of a punctuation mark inside a Latin run.
pub open spec fn spec_encode_english_char_symbol_shortcut(c: char) -> Option<Seq<u8>> {
    match c {
        '(' => Some(seq![16u8, 35u8]),
        ')' => Some(seq![16u8, 28u8]),
        ',' => Some(seq![2u8]),
        _ => None,
    }
}

/// Computes `spec_encode_english_char_symbol_shortcut`.
pub fn encode_english_char_symbol_shortcut(text: char) -> (r: Option<Vec<u8>>)
    ensures
        cells_opt(r, spec_encode_english_char_symbol_shortcut(text)),
{
    match text {
        '(' => Some(vec![16u8, 35u8]),
        ')' => Some(vec![16u8, 28u8]),
        ',' => Some(vec![2u8]),
        _ => None,
    }
}

/// Whether `c` is a punctuation mark with cells of its own in a Latin run.
pub open spec fn spec_is_english_symbol_char(c: char) -> bool {
    c == '(' || c == ')' || c == ','
}

/// Computes `spec_is_english_symbol_char`.
#[verifier::when_used_as_spec(spec_is_english_symbol_char)]
pub fn is_english_symbol_char(text: char) -> (b: bool)
    ensures
        b == spec_is_english_symbol_char(text),
        b == (spec_encode_english_char_symbol_shortcut(text) is Some),
{
    text == '(' || text == ')' || text == ','
}

} // verus!
