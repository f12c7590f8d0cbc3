//! When punctuation belongs to a Latin run, and how a run ends before it.

use vstd::prelude::*;
use crate::symbol_shortcut::is_english_symbol_char;
use crate::utils::is_ascii_alphabetic;

verus! {

/// The marks before which a Latin run ends with its terminator, whatever
/// else holds.
pub open spec fn spec_should_force_terminator_before_symbol(c: char) -> bool {
    c == '/' || c == '\'' || c == '"' || c == '{' || c == '[' || c == '|' || c == '\\'
}

/// Computes `spec_should_force_terminator_before_symbol`.
#[verifier::when_used_as_spec(spec_should_force_terminator_before_symbol)]
pub fn should_force_terminator_before_symbol(c: char) -> (b: bool)
    ensures
        b == spec_should_force_terminator_before_symbol(c),
{
    c == '/' || c == '\'' || c == '"' || c == '{' || c == '[' || c == '|' || c == '\\'
}

/// The marks before which a Latin run ends without a terminator.
pub open spec fn spec_should_skip_terminator_for_symbol(c: char) -> bool {
    c == ',' || c == '.' || c == '!' || c == '?' || c == ';' || c == ':' || c == '(' || c == ')'
}

/// Computes `spec_should_skip_terminator_for_symbol`.
#[verifier::when_used_as_spec(spec_should_skip_terminator_for_symbol)]
pub fn should_skip_terminator_for_symbol(c: char) -> (b: bool)
    ensures
        b == spec_should_skip_terminator_for_symbol(c),
{
    c == ',' || c == '.' || c == '!' || c == '?' || c == ';' || c == ':' || c == '(' || c == ')'
}

/// The marks after which the next Latin run opens with the continuation
/// sign.
pub open spec fn spec_should_request_continuation(c: char) -> bool {
    c == '.' || c == '!' || c == '?'
}

/// Computes `spec_should_request_continuation`.
#[verifier::when_used_as_spec(spec_should_request_continuation)]
pub fn should_request_continuation(c: char) -> (b: bool)
    ensures
        b == spec_should_request_continuation(c),
{
    c == '.' || c == '!' || c == '?'
}

/// The marks that have cells of their own inside a Latin run.
pub open spec fn spec_is_english_symbol(c: char) -> bool {
    is_english_symbol_char(c)
}

/// Computes `spec_is_english_symbol`.
#[verifier::when_used_as_spec(spec_is_english_symbol)]
pub fn is_english_symbol(c: char) -> (b: bool)
    ensures
        b == spec_is_english_symbol(c),
{
    is_english_symbol_char(c)
}

/// The letters that, as a word of one letter, stand for a whole word in
/// Latin braille: every letter but `a`, `i` and `o`. Before such a word
/// the run is left, so that the word opens with the continuation sign.
pub open spec fn spec_requires_single_letter_continuation(letter: char) -> bool {
    is_ascii_alphabetic(letter) && letter != 'a' && letter != 'A' && letter != 'i' && letter
        != 'I' && letter != 'o' && letter != 'O'
}

/// Computes `spec_requires_single_letter_continuation`.
#[verifier::when_used_as_spec(spec_requires_single_letter_continuation)]
pub fn requires_single_letter_continuation(letter: char) -> (b: bool)
    ensures
        b == spec_requires_single_letter_continuation(letter),
{
    is_ascii_alphabetic(letter) && letter != 'a' && letter != 'A' && letter != 'i' && letter
        != 'I' && letter != 'o' && letter != 'O'
}

/// The character after `i`: the next one in the word, or else the first
/// one of the next word.
pub open spec fn spec_next_char(word: Seq<char>, i: int, remaining: Seq<Seq<char>>) -> Option<
    char,
> {
    if 0 <= i + 1 < word.len() {
        Some(word[i + 1])
    } else if remaining.len() > 0 && remaining[0].len() > 0 {
        Some(remaining[0][0])
    } else {
        None
    }
}

/// The character after `i`. The words after this one are `words` from
/// `next` on.
pub(crate) fn next_char(
    word: &Vec<char>,
    i: usize,
    words: &Vec<Vec<char>>,
    next: usize,
) -> (r: Option<
    char,
>)
    requires
        i < word.len(),
        next <= words.len(),
    ensures
        r == spec_next_char(
            word@,
            i as int,
            crate::text::words_view(words@).skip(next as int),
        ),
{
    if word.len() - i > 1 {
        Some(word[i + 1])
    } else if next < words.len() && words[next].len() > 0 {
        Some(words[next][0])
    } else {
        None
    }
}

/// Whether the mark `symbol` at `i` is part of a Latin run.
///
/// Never where Korean text has no Latin indicator. An opening parenthesis
/// is, where a Latin letter follows it in the word and it opens the word
/// or stands in a run. A closing parenthesis is, where the innermost open
/// one was. A comma is, inside a run, where a Latin letter comes next. No
/// other mark is.
pub open spec fn spec_should_render_symbol_as_english(
    english_indicator: bool,
    is_english: bool,
    parenthesis_stack: Seq<bool>,
    symbol: char,
    word: Seq<char>,
    i: int,
    remaining: Seq<Seq<char>>,
) -> bool {
    english_indicator && if symbol == '(' {
        0 <= i + 1 < word.len() && is_ascii_alphabetic(word[i + 1]) && (i == 0 || is_english)
    } else if symbol == ')' {
        parenthesis_stack.len() > 0 && parenthesis_stack.last()
    } else if symbol == ',' {
        is_english && (spec_next_char(word, i, remaining) matches Some(c) && is_ascii_alphabetic(c))
    } else {
        false
    }
}

pub(crate) fn should_render_symbol_as_english(
    english_indicator: bool,
    is_english: bool,
    parenthesis_stack: &Vec<bool>,
    symbol: char,
    word: &Vec<char>,
    i: usize,
    words: &Vec<Vec<char>>,
    next: usize,
) -> (b: bool)
    requires
        i < word.len(),
        next <= words.len(),
    ensures
        b == spec_should_render_symbol_as_english(
            english_indicator,
            is_english,
            parenthesis_stack@,
            symbol,
            word@,
            i as int,
            crate::text::words_view(words@).skip(next as int),
        ),
        b ==> is_english_symbol_char(symbol),
{
    if !english_indicator {
        false
    } else if symbol == '(' {
        word.len() - i > 1 && is_ascii_alphabetic(word[i + 1]) && (i == 0 || is_english)
    } else if symbol == ')' {
        parenthesis_stack.len() > 0 && parenthesis_stack[parenthesis_stack.len() - 1]
    } else if symbol == ',' {
        is_english && match next_char(word, i, words, next) {
            Some(c) => is_ascii_alphabetic(c),
            None => false,
        }
    } else {
        false
    }
}

} // verus!
