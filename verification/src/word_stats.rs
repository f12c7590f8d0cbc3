//! What the encoder asks of a whole word before it walks through it.

use vstd::prelude::*;
use crate::symbol_shortcut::{is_english_symbol_char, is_symbol_char};
use crate::utils::{
    is_ascii_alphabetic, is_ascii_digit, is_ascii_lowercase, is_korean_char,
};

verus! {

/// The number of Latin letters in the word.
pub open spec fn spec_letter_count(w: Seq<char>) -> nat
    decreases w.len(),
{
    if w.len() == 0 {
        0
    } else {
        spec_letter_count(w.drop_last()) + if is_ascii_alphabetic(w.last()) {
            1nat
        } else {
            0nat
        }
    }
}

/// The first Latin letter of the word; the null character where it has
/// none.
pub open spec fn spec_first_letter(w: Seq<char>) -> char
    decreases w.len(),
{
    if w.len() == 0 {
        '\0'
    } else if spec_letter_count(w.drop_last()) > 0 {
        spec_first_letter(w.drop_last())
    } else if is_ascii_alphabetic(w.last()) {
        w.last()
    } else {
        '\0'
    }
}

/// Whether a Latin letter in lower case stands in the word.
pub open spec fn spec_has_lowercase(w: Seq<char>) -> bool {
    exists|k: int| 0 <= k < w.len() && is_ascii_lowercase(#[trigger] w[k])
}

/// Whether a Latin letter stands in the word.
pub open spec fn spec_has_letter(w: Seq<char>) -> bool {
    exists|k: int| 0 <= k < w.len() && is_ascii_alphabetic(#[trigger] w[k])
}

/// Whether a digit stands in the word.
pub open spec fn spec_has_digit(w: Seq<char>) -> bool {
    exists|k: int| 0 <= k < w.len() && is_ascii_digit(#[trigger] w[k])
}

/// Whether a Hangul syllable stands in the word.
pub open spec fn spec_has_korean(w: Seq<char>) -> bool {
    exists|k: int| 0 <= k < w.len() && is_korean_char(#[trigger] w[k])
}

/// Whether a Hangul syllable stands before `i`.
pub open spec fn spec_has_korean_before(w: Seq<char>, i: int) -> bool {
    exists|k: int| 0 <= k < i && k < w.len() && is_korean_char(#[trigger] w[k])
}

/// Whether every character is a Latin letter. The empty word counts.
pub open spec fn spec_all_letters(w: Seq<char>) -> bool {
    forall|k: int| 0 <= k < w.len() ==> is_ascii_alphabetic(#[trigger] w[k])
}

/// Whether the word holds two Latin letters at least, and none in lower
/// case.
pub open spec fn spec_is_all_uppercase(w: Seq<char>) -> bool {
    spec_letter_count(w) >= 2 && !spec_has_lowercase(w)
}

/// Whether the word opens with a Latin letter.
pub open spec fn spec_starts_with_letter(w: Seq<char>) -> bool {
    w.len() > 0 && is_ascii_alphabetic(w[0])
}

/// A character that a word of one letter may hold beside the letter: a
/// punctuation mark or a Hangul syllable.
pub open spec fn spec_is_plain_neighbour(c: char) -> bool {
    is_ascii_alphabetic(c) || is_english_symbol_char(c) || is_symbol_char(c) || is_korean_char(c)
}

/// Whether the word holds a character that is no plain neighbour.
pub open spec fn spec_has_stranger(w: Seq<char>) -> bool {
    exists|k: int| 0 <= k < w.len() && !spec_is_plain_neighbour(#[trigger] w[k])
}

/// Whether the word is one Latin letter, perhaps with punctuation or
/// Hangul around it, and no digit.
pub open spec fn spec_is_single_letter_word(w: Seq<char>) -> bool {
    spec_letter_count(w) == 1 && !spec_has_digit(w) && !spec_has_stranger(w)
}

/// The letters of a word, counted, with the first of them.
pub fn letters(w: &Vec<char>) -> (r: (usize, char))
    ensures
        r.0 == spec_letter_count(w@),
        r.1 == spec_first_letter(w@),
{
    let mut count: usize = 0;
    let mut first: char = '\0';
    let mut i: usize = 0;
    while i < w.len()
        invariant
            i <= w.len(),
            count <= i,
            count == spec_letter_count(w@.take(i as int)),
            first == spec_first_letter(w@.take(i as int)),
        decreases w.len() - i,
    {
        assert(w@.take(i + 1).drop_last() =~= w@.take(i as int));
        if is_ascii_alphabetic(w[i]) {
            if count == 0 {
                first = w[i];
            }
            count += 1;
        }
        i += 1;
    }
    assert(w@.take(w.len() as int) =~= w@);
    (count, first)
}

/// Computes `spec_has_lowercase`.
pub fn has_lowercase(w: &Vec<char>) -> (b: bool)
    ensures
        b == spec_has_lowercase(w@),
{
    let mut i: usize = 0;
    while i < w.len()
        invariant
            i <= w.len(),
            forall|k: int| 0 <= k < i ==> !is_ascii_lowercase(#[trigger] w@[k]),
        decreases w.len() - i,
    {
        if is_ascii_lowercase(w[i]) {
            return true;
        }
        i += 1;
    }
    false
}

/// Computes `spec_has_letter`.
pub fn has_letter(w: &Vec<char>) -> (b: bool)
    ensures
        b == spec_has_letter(w@),
{
    let mut i: usize = 0;
    while i < w.len()
        invariant
            i <= w.len(),
            forall|k: int| 0 <= k < i ==> !is_ascii_alphabetic(#[trigger] w@[k]),
        decreases w.len() - i,
    {
        if is_ascii_alphabetic(w[i]) {
            return true;
        }
        i += 1;
    }
    false
}

/// Computes `spec_has_digit`.
pub fn has_digit(w: &Vec<char>) -> (b: bool)
    ensures
        b == spec_has_digit(w@),
{
    let mut i: usize = 0;
    while i < w.len()
        invariant
            i <= w.len(),
            forall|k: int| 0 <= k < i ==> !is_ascii_digit(#[trigger] w@[k]),
        decreases w.len() - i,
    {
        if is_ascii_digit(w[i]) {
            return true;
        }
        i += 1;
    }
    false
}

/// Whether a Hangul syllable stands before `i`.
pub(crate) fn has_korean_before(w: &Vec<char>, i: usize) -> (b: bool)
    requires
        i <= w.len(),
    ensures
        b == spec_has_korean_before(w@, i as int),
{
    let mut k: usize = 0;
    while k < i
        invariant
            k <= i <= w.len(),
            forall|j: int| 0 <= j < k ==> !is_korean_char(#[trigger] w@[j]),
        decreases i - k,
    {
        if is_korean_char(w[k]) {
            return true;
        }
        k += 1;
    }
    false
}

/// Computes `spec_has_korean`.
pub fn has_korean(w: &Vec<char>) -> (b: bool)
    ensures
        b == spec_has_korean(w@),
{
    has_korean_before(w, w.len())
}

/// Computes `spec_all_letters`.
pub fn all_letters(w: &Vec<char>) -> (b: bool)
    ensures
        b == spec_all_letters(w@),
{
    let mut i: usize = 0;
    while i < w.len()
        invariant
            i <= w.len(),
            forall|k: int| 0 <= k < i ==> is_ascii_alphabetic(#[trigger] w@[k]),
        decreases w.len() - i,
    {
        if !is_ascii_alphabetic(w[i]) {
            return false;
        }
        i += 1;
    }
    true
}

/// Computes `spec_has_stranger`.
pub fn has_stranger(w: &Vec<char>) -> (b: bool)
    ensures
        b == spec_has_stranger(w@),
{
    let mut i: usize = 0;
    while i < w.len()
        invariant
            i <= w.len(),
            forall|k: int| 0 <= k < i ==> spec_is_plain_neighbour(#[trigger] w@[k]),
        decreases w.len() - i,
    {
        let c = w[i];
        if !(is_ascii_alphabetic(c) || is_english_symbol_char(c) || is_symbol_char(c)
            || is_korean_char(c)) {
            return true;
        }
        i += 1;
    }
    false
}

/// Computes `spec_is_all_uppercase`.
pub fn is_all_uppercase(w: &Vec<char>) -> (b: bool)
    ensures
        b == spec_is_all_uppercase(w@),
{
    let (count, _) = letters(w);
    count >= 2 && !has_lowercase(w)
}

/// Computes `spec_is_single_letter_word`.
pub fn is_single_letter_word(w: &Vec<char>) -> (b: bool)
    ensures
        b == spec_is_single_letter_word(w@),
{
    let (count, _) = letters(w);
    count == 1 && !has_digit(w) && !has_stranger(w)
}

} // verus!
