//! The separator between two vowels that would else read as one.

use vstd::prelude::*;
use crate::char_struct::{spec_decompose, KoreanChar};
use crate::error::EncodeError;
use crate::utils::is_korean_char;

verus! {

/// The cell that keeps two vowels apart.
pub const SEPARATOR: u8 = 36;

/// Whether `next` is the syllable `예`, with or without a final, after a
/// syllable that ends in its vowel.
pub open spec fn spec_rule_11(current: KoreanChar, next: char) -> bool {
    current.jong is None && is_korean_char(next) && spec_decompose(next).cho == 'ㅇ'
        && spec_decompose(next).jung == 'ㅖ'
}

/// Whether `next` is the syllable `애`, with or without a final, after a
/// syllable that ends in one of the vowels `ㅑ`, `ㅘ`, `ㅜ`, `ㅝ`.
pub open spec fn spec_rule_12(current: KoreanChar, next: char) -> bool {
    current.jong is None && (current.jung == 'ㅑ' || current.jung == 'ㅘ' || current.jung == 'ㅜ'
        || current.jung == 'ㅝ') && is_korean_char(next) && spec_decompose(next).cho == 'ㅇ'
        && spec_decompose(next).jung == 'ㅐ'
}

/// The cells that the two rules put between `current` and `next`.
pub open spec fn spec_separators(current: KoreanChar, next: char) -> Seq<u8> {
    (if spec_rule_11(current, next) {
        seq![SEPARATOR]
    } else {
        Seq::empty()
    }) + (if spec_rule_12(current, next) {
        seq![SEPARATOR]
    } else {
        Seq::empty()
    })
}

/// Initial and medial of `next` as their places in the syllable block.
fn initial_and_medial(next: char) -> (r: Option<(u32, u32)>)
    ensures
        r is Some == is_korean_char(next),
        r matches Some((c, j)) ==> c == (next as u32 - 0xAC00) / 588 && j == ((next as u32
            - 0xAC00) % 588) / 28,
{
    if is_korean_char(next) {
        let b: u32 = next as u32 - 0xAC00;
        Some((b / 588, (b % 588) / 28))
    } else {
        None
    }
}

/// Computes `spec_rule_11`.
pub fn rule_11(current: &KoreanChar, next: char, result: &mut Vec<u8>) -> (r: Result<
    (),
    EncodeError,
>)
    ensures
        r is Ok,
        final(result)@ == old(result)@ + (if spec_rule_11(*current, next) {
            seq![SEPARATOR]
        } else {
            Seq::empty()
        }),
{
    let hit = match initial_and_medial(next) {
        Some((c, j)) => current.jong.is_none() && c == 11 && j == 7,
        None => false,
    };
    if hit {
        result.push(SEPARATOR);
    }
    Ok(())
}

/// Computes `spec_rule_12`.
pub fn rule_12(current: &KoreanChar, next: char, result: &mut Vec<u8>) -> (r: Result<
    (),
    EncodeError,
>)
    ensures
        r is Ok,
        final(result)@ == old(result)@ + (if spec_rule_12(*current, next) {
            seq![SEPARATOR]
        } else {
            Seq::empty()
        }),
{
    let hit = match initial_and_medial(next) {
        Some((c, j)) => current.jong.is_none() && (current.jung == 'ㅑ' || current.jung == 'ㅘ'
            || current.jung == 'ㅜ' || current.jung == 'ㅝ') && c == 11 && j == 1,
        None => false,
    };
    if hit {
        result.push(SEPARATOR);
    }
    Ok(())
}

} // verus!
