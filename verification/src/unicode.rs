//! One braille cell as a byte, and its Unicode glyph.

use vstd::prelude::*;

verus! {

/// The byte that separates words.
pub const SPACE: u8 = 0;

/// The byte that stands for a line break carried through from the input.
pub const NEWLINE: u8 = 255;

/// The glyph of a cell: a line break for `NEWLINE`, else the braille
/// pattern whose raised dots are the set bits of `cell`.
pub open spec fn glyph(cell: u8) -> char {
    if cell == NEWLINE {
        '\n'
    } else {
        (0x2800 + cell as int) as char
    }
}

/// Whether `c` lies in the braille patterns block.
pub open spec fn is_braille(c: char) -> bool {
    0x2800 <= c as u32 <= 0x28FF
}

/// `char::from_u32`: the character with the given scalar value, and `None`
/// for a surrogate or a value past the last code point.
pub assume_specification[ char::from_u32 ](i: u32) -> (r: Option<char>)
    ensures
        r == (if i <= 0xD7FF || 0xE000 <= i <= 0x10FFFF {
            Some(i as char)
        } else {
            None
        }),
;

/// The glyph of a cell.
pub fn encode_unicode(cell: u8) -> (c: char)
    ensures
        c == glyph(cell),
{
    if cell == NEWLINE {
        '\n'
    } else {
        let code: u32 = 0x2800 + cell as u32;
        match char::from_u32(code) {
            Some(c) => c,
            None => '\n',
        }
    }
}

/// The cell of a braille pattern: the pattern's place in its block.
pub fn decode_unicode(c: char) -> (cell: u8)
    requires
        is_braille(c),
    ensures
        cell as int == c as int - 0x2800,
{
    (c as u32 - 0x2800) as u8
}

} // verus!
