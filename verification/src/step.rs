//! One step through a word: what a character of each class writes, and
//! what it does to the state.

use vstd::prelude::*;
use crate::char_struct::{CharType, KoreanChar};
use crate::english::{encode_english, spec_encode_english};
use crate::english_logic::{
    next_char, should_force_terminator_before_symbol, should_render_symbol_as_english,
    should_request_continuation, should_skip_terminator_for_symbol, spec_next_char,
    spec_should_render_symbol_as_english,
};
use crate::error::EncodeError;
use crate::fraction::{
    encode_fraction, encode_fraction_in_context, find_inline_fraction, parse_unicode_fraction,
    spec_encode_fraction, spec_encode_fraction_in_context, spec_find_inline_fraction,
    spec_parse_unicode_fraction,
};
use crate::jauem::{encode_choseong, encode_jongseong, spec_encode_choseong, spec_encode_jongseong};
use crate::korean_char::{
    encode_korean_char, spec_encode_korean_char, spec_final_cells, DOUBLE_MARK,
};
use crate::korean_part::{encode_korean_part, spec_encode_korean_part};
use crate::math_symbol_shortcut::{
    encode_char_math_symbol_shortcut, spec_encode_char_math_symbol_shortcut,
};
use crate::moeum::{encode_jungsong, spec_encode_jungsong};
use crate::number::{encode_number, spec_encode_number, NUMBER_SIGN};
use crate::rule::{rule_11, rule_12, spec_separators};
use crate::rule_en::{rule_en_10_4, rule_en_10_6, spec_rule_en_10_4, spec_rule_en_10_6};
use crate::split::{spec_split_korean_jauem, split_korean_jauem};
use crate::state::{
    emit, run_done, run_of, spec_close, spec_enter, spec_exit, Encoder, Run, WordFlags, CAPITAL,
    ENGLISH_CLOSE,
};
use crate::symbol_shortcut::{
    encode_english_char_symbol_shortcut, is_symbol_char, symbol_cells,
    spec_encode_char_symbol_shortcut, spec_encode_english_char_symbol_shortcut,
};
use crate::text::{append_cells, words_view};
use crate::unicode::{NEWLINE, SPACE};
use crate::utils::{
    has_choseong_o, is_ascii_alphabetic, is_ascii_digit, is_ascii_lowercase, is_ascii_uppercase,
    is_korean_char,
};
use crate::word_stats::{has_korean_before, spec_has_korean, spec_has_korean_before};

verus! {

/// The words after the one at hand.
pub open spec fn rest_of(words: &Vec<Vec<char>>, next: usize) -> Seq<Seq<char>> {
    words_view(words@).skip(next as int)
}

/// The run with the flag of a number cleared.
pub open spec fn leave_number(r: Run) -> Run {
    Run { is_number: false, ..r }
}

/// Opens the Latin run that the word is waiting for, where `c` is a Latin
/// letter, or a mark of a Latin run and no continuation is owed.
pub open spec fn spec_open_pending(
    r: Run,
    c: char,
    w: Seq<char>,
    i: int,
    rem: Seq<Seq<char>>,
) -> Run {
    if r.pending && (is_ascii_alphabetic(c) || (spec_should_render_symbol_as_english(
        r.state.english_indicator,
        r.state.is_english,
        r.state.parenthesis_stack,
        c,
        w,
        i,
        rem,
    ) && !r.state.needs_english_continuation)) {
        Run { pending: false, ..spec_enter(r) }
    } else {
        r
    }
}

/// How a Latin run goes on or ends before a character of the given class.
///
/// A letter keeps it. A digit ends it in silence, and the next run opens
/// with the continuation sign. A mark of the run keeps it; a mark that
/// forces the closing sign, or that is not among the quiet ones, ends it
/// with that sign; a quiet mark ends it in silence, and a full stop, an
/// exclamation mark or a question mark asks for the continuation sign.
/// Anything else ends it with the closing sign.
pub open spec fn spec_arbitrate(
    r: Run,
    class: CharType,
    w: Seq<char>,
    i: int,
    rem: Seq<Seq<char>>,
) -> Run {
    if r.state.english_indicator && r.state.is_english {
        match class {
            CharType::English(_) => r,
            CharType::Number(_) => spec_exit(r, true),
            CharType::Symbol(sym) => {
                if spec_should_render_symbol_as_english(
                    r.state.english_indicator,
                    r.state.is_english,
                    r.state.parenthesis_stack,
                    sym,
                    w,
                    i,
                    rem,
                ) {
                    r
                } else if should_force_terminator_before_symbol(sym) {
                    spec_close(r)
                } else if !should_skip_terminator_for_symbol(sym) {
                    spec_close(r)
                } else {
                    spec_exit(r, should_request_continuation(sym))
                }
            },
            _ => spec_close(r),
        }
    } else {
        r
    }
}

impl Encoder {
    fn open_pending(
        &mut self,
        flags: &mut WordFlags,
        skip: &usize,
        result: &mut Vec<u8>,
        c: char,
        word: &Vec<char>,
        i: usize,
        words: &Vec<Vec<char>>,
        next: usize,
    )
        requires
            i < word.len(),
            next <= words.len(),
        ensures
            run_of(final(self), final(flags), *skip, final(result)) =~= spec_open_pending(
                run_of(old(self), old(flags), *skip, old(result)),
                c,
                word@,
                i as int,
                rest_of(words, next),
            ),
    {
        if flags.pending && (is_ascii_alphabetic(c) || (should_render_symbol_as_english(
            self.english_indicator,
            self.is_english,
            &self.parenthesis_stack,
            c,
            word,
            i,
            words,
            next,
        ) && !self.needs_english_continuation)) {
            self.enter_english(result);
            flags.pending = false;
        }
    }

    fn close_english(&mut self, result: &mut Vec<u8>)
        ensures
            final(self)@ == crate::state::spec_exit_state(old(self)@, false),
            final(result)@ == old(result)@ + seq![ENGLISH_CLOSE],
    {
        result.push(ENGLISH_CLOSE);
        self.exit_english(false);
        assert(result@ =~= old(result)@ + seq![ENGLISH_CLOSE]);
    }

    fn arbitrate(
        &mut self,
        flags: &WordFlags,
        skip: &usize,
        result: &mut Vec<u8>,
        class: &CharType,
        word: &Vec<char>,
        i: usize,
        words: &Vec<Vec<char>>,
        next: usize,
    )
        requires
            i < word.len(),
            next <= words.len(),
        ensures
            run_of(final(self), flags, *skip, final(result)) =~= spec_arbitrate(
                run_of(old(self), flags, *skip, old(result)),
                *class,
                word@,
                i as int,
                rest_of(words, next),
            ),
    {
        if self.english_indicator && self.is_english {
            match class {
                CharType::English(_) => {},
                CharType::Number(_) => {
                    self.exit_english(true);
                },
                CharType::Symbol(sym) => {
                    if should_render_symbol_as_english(
                        self.english_indicator,
                        self.is_english,
                        &self.parenthesis_stack,
                        *sym,
                        word,
                        i,
                        words,
                        next,
                    ) {
                    } else if should_force_terminator_before_symbol(*sym) {
                        self.close_english(result);
                    } else if !should_skip_terminator_for_symbol(*sym) {
                        self.close_english(result);
                    } else {
                        self.exit_english(should_request_continuation(*sym));
                    }
                },
                _ => {
                    self.close_english(result);
                },
            }
        }
    }
}


/// What a word is as a whole, as far as a step asks.
#[derive(Clone, Copy, Debug)]
pub struct WordStats {
    /// Two Latin letters at least, and none in lower case.
    pub all_upper: bool,
    /// The first character is a Latin letter.
    pub starts_with_letter: bool,
    /// A Hangul syllable stands in the word.
    pub has_korean: bool,
}

/// The three answers for the word `w`.
pub open spec fn spec_word_stats(w: Seq<char>) -> WordStats {
    WordStats {
        all_upper: crate::word_stats::spec_is_all_uppercase(w),
        starts_with_letter: crate::word_stats::spec_starts_with_letter(w),
        has_korean: spec_has_korean(w),
    }
}

/// Computes `spec_word_stats`.
pub fn word_stats(w: &Vec<char>) -> (s: WordStats)
    ensures
        s == spec_word_stats(w@),
{
    WordStats {
        all_upper: crate::word_stats::is_all_uppercase(w),
        starts_with_letter: w.len() > 0 && is_ascii_alphabetic(w[0]),
        has_korean: crate::word_stats::has_korean(w),
    }
}

/// The syllables that are written letter by letter, because a contraction
/// would read as another syllable.
pub open spec fn spec_is_full_form(c: char) -> bool {
    c == '팠' || c == '껐' || c == '셩' || c == '쎵' || c == '졍' || c == '쪙' || c == '쳥' || c
        == '겄'
}

/// The syllables of a consonant and `ㅏ` that keep their vowel before a
/// syllable that opens with a vowel.
pub open spec fn spec_is_open_syllable(c: char) -> bool {
    c == '나' || c == '다' || c == '마' || c == '바' || c == '자' || c == '카' || c == '타' || c
        == '파' || c == '하'
}

/// Whether the syllable would read as a digit right after a number: its
/// initial has the cell of a digit, or it is `운`.
pub open spec fn spec_reads_as_digit(k: KoreanChar, c: char) -> bool {
    k.cho == 'ㄴ' || k.cho == 'ㄷ' || k.cho == 'ㅁ' || k.cho == 'ㅋ' || k.cho == 'ㅌ' || k.cho
        == 'ㅍ' || k.cho == 'ㅎ' || c == '운'
}

/// A syllable letter by letter: the marker of a doubled initial, the plain
/// initial, the vowel, the final.
pub open spec fn spec_full_form_cells(k: KoreanChar) -> Result<Seq<u8>, EncodeError> {
    match spec_split_korean_jauem(k.cho) {
        None => Err(EncodeError::BadSyllableSplit(k.cho)),
        Some((cho, second)) => match spec_encode_choseong(cho) {
            None => Err(EncodeError::MissingKoreanComponent(cho)),
            Some(b) => match spec_encode_jungsong(k.jung) {
                None => Err(EncodeError::MissingKoreanComponent(k.jung)),
                Some(v) => match spec_final_cells(k.jong) {
                    Err(e) => Err(e),
                    Ok(f) => Ok(
                        (if second is Some {
                            seq![DOUBLE_MARK]
                        } else {
                            Seq::empty()
                        }) + seq![b] + v + f,
                    ),
                },
            },
        },
    }
}

/// Initial and vowel of a syllable, each in full.
pub open spec fn spec_open_form_cells(k: KoreanChar) -> Result<Seq<u8>, EncodeError> {
    match spec_encode_choseong(k.cho) {
        None => Err(EncodeError::MissingKoreanComponent(k.cho)),
        Some(b) => match spec_encode_jungsong(k.jung) {
            None => Err(EncodeError::MissingKoreanComponent(k.jung)),
            Some(v) => Ok(seq![b] + v),
        },
    }
}

/// The cells of the syllable `c` at `i`.
pub open spec fn spec_syllable_cells(k: KoreanChar, c: char, w: Seq<char>, i: int) -> Result<
    Seq<u8>,
    EncodeError,
> {
    if spec_is_full_form(c) {
        spec_full_form_cells(k)
    } else if spec_is_open_syllable(c) && i + 1 < w.len() && has_choseong_o(w[i + 1]) {
        spec_open_form_cells(k)
    } else {
        spec_encode_korean_char(k)
    }
}

/// A syllable: a space first where it would read as a digit after a
/// number, then its cells, then the separator that the next character asks
/// for. No continuation sign is owed after it.
pub open spec fn spec_korean_step(r: Run, k: KoreanChar, c: char, w: Seq<char>, i: int) -> Result<
    Run,
    EncodeError,
> {
    let gap = if r.is_number && spec_reads_as_digit(k, c) {
        seq![SPACE]
    } else {
        Seq::empty()
    };
    match spec_syllable_cells(k, c, w, i) {
        Err(e) => Err(e),
        Ok(cells) => {
            let sep = if i + 1 < w.len() {
                spec_separators(k, w[i + 1])
            } else {
                Seq::empty()
            };
            Ok(
                Run {
                    state: crate::state::EncoderState {
                        needs_english_continuation: false,
                        ..r.state
                    },
                    is_number: false,
                    out: r.out + gap + cells + sep,
                    ..r
                },
            )
        },
    }
}

fn full_form_cells(k: &KoreanChar) -> (r: Result<Vec<u8>, EncodeError>)
    ensures
        crate::fraction::cells_res(r, spec_full_form_cells(*k)),
{
    let (cho, second) = split_korean_jauem(k.cho)?;
    let mut out: Vec<u8> = Vec::new();
    if second.is_some() {
        out.push(DOUBLE_MARK);
    }
    let b = encode_choseong(cho)?;
    out.push(b);
    let v = encode_jungsong(k.jung)?;
    append_cells(&mut out, &v);
    match k.jong {
        Some(j) => {
            let f = encode_jongseong(j)?;
            append_cells(&mut out, &f);
        },
        None => {},
    }
    Ok(out)
}

fn open_form_cells(k: &KoreanChar) -> (r: Result<Vec<u8>, EncodeError>)
    ensures
        crate::fraction::cells_res(r, spec_open_form_cells(*k)),
{
    let mut out: Vec<u8> = Vec::new();
    let b = encode_choseong(k.cho)?;
    out.push(b);
    let v = encode_jungsong(k.jung)?;
    append_cells(&mut out, &v);
    Ok(out)
}

fn is_full_form(c: char) -> (b: bool)
    ensures
        b == spec_is_full_form(c),
{
    c == '팠' || c == '껐' || c == '셩' || c == '쎵' || c == '졍' || c == '쪙' || c == '쳥' || c
        == '겄'
}

fn is_open_syllable(c: char) -> (b: bool)
    ensures
        b == spec_is_open_syllable(c),
{
    c == '나' || c == '다' || c == '마' || c == '바' || c == '자' || c == '카' || c == '타' || c
        == '파' || c == '하'
}

fn reads_as_digit(k: &KoreanChar, c: char) -> (b: bool)
    ensures
        b == spec_reads_as_digit(*k, c),
{
    k.cho == 'ㄴ' || k.cho == 'ㄷ' || k.cho == 'ㅁ' || k.cho == 'ㅋ' || k.cho == 'ㅌ' || k.cho
        == 'ㅍ' || k.cho == 'ㅎ' || c == '운'
}

impl Encoder {
    fn korean_step(
        &mut self,
        flags: &mut WordFlags,
        skip: &usize,
        result: &mut Vec<u8>,
        k: &KoreanChar,
        c: char,
        word: &Vec<char>,
        i: usize,
    ) -> (r: Result<(), EncodeError>)
        requires
            i < word.len(),
        ensures
            run_done(
                r,
                run_of(final(self), final(flags), *skip, final(result)),
                spec_korean_step(
                    run_of(old(self), old(flags), *skip, old(result)),
                    *k,
                    c,
                    word@,
                    i as int,
                ),
            ),
    {
        let last = word.len() - i == 1;
        let cells = if is_full_form(c) {
            full_form_cells(k)?
        } else if is_open_syllable(c) && !last && has_choseong_o(word[i + 1]) {
            open_form_cells(k)?
        } else {
            encode_korean_char(k)?
        };
        self.needs_english_continuation = false;
        if flags.is_number && reads_as_digit(k, c) {
            result.push(SPACE);
        }
        append_cells(result, &cells);
        if !last {
            let _ = rule_11(k, word[i + 1], result);
            let _ = rule_12(k, word[i + 1], result);
        }
        flags.is_number = false;
        proof {
            let gap = if old(flags).is_number && spec_reads_as_digit(*k, c) {
                seq![SPACE]
            } else {
                Seq::empty()
            };
            let sep = if i + 1 < word.len() {
                spec_separators(*k, word@[i + 1])
            } else {
                Seq::empty()
            };
            assert(result@ =~= old(result)@ + gap + cells@ + sep);
        }
        Ok(())
    }
}

/// Whether the letter at `i` stands by itself in a word of three
/// characters or more: before `자` at the start of the word, or with a
/// punctuation mark or the edge of the word on either side.
pub open spec fn spec_stands_alone(w: Seq<char>, i: int) -> bool {
    (i == 0 && w[1] == '자') || ((i == 0 || is_symbol_char(w[i - 1])) && (i == w.len() - 1
        || is_symbol_char(w[i + 1])))
}

/// The sign before a letter that is written by itself: the sign of a
/// letter joined to a word where the word is longer than two characters,
/// holds a syllable, and the letter does not stand alone in it; else the
/// sign of a whole letter.
pub open spec fn spec_part_head(w: Seq<char>, i: int) -> u8 {
    if w.len() >= 3 && !spec_stands_alone(w, i) && spec_has_korean(w) {
        56
    } else {
        63
    }
}

/// A letter that cannot number a list: a vowel, or a doubled consonant
/// that no syllable ends in.
pub open spec fn spec_lacks_final_form(c: char) -> bool {
    crate::utils::is_korean_part(c) && spec_encode_jongseong(c) is None
}

/// The cells of the letter itself: its form as a final where it numbers a
/// list, that is in a word of the letter and a full stop, else its form on
/// its own.
pub open spec fn spec_part_cells(c: char, w: Seq<char>, i: int) -> Result<Seq<u8>, EncodeError> {
    let cells = if w.len() == 2 && i == 0 && w[1] == '.' {
        spec_encode_jongseong(c)
    } else {
        spec_encode_korean_part(c)
    };
    match cells {
        Some(x) => Ok(x),
        None => Err(EncodeError::MissingKoreanComponent(c)),
    }
}

/// A letter on its own: its sign and its cells. No continuation sign is
/// owed after it, and a number ends.
pub open spec fn spec_part_step(r: Run, c: char, w: Seq<char>, i: int) -> Result<Run, EncodeError> {
    match spec_part_cells(c, w, i) {
        Err(e) => Err(e),
        Ok(cells) => Ok(
            Run {
                state: crate::state::EncoderState { needs_english_continuation: false, ..r.state },
                is_number: false,
                out: r.out + seq![spec_part_head(w, i)] + cells,
                ..r
            },
        ),
    }
}

impl Encoder {
    fn part_step(
        &mut self,
        flags: &mut WordFlags,
        skip: &usize,
        result: &mut Vec<u8>,
        c: char,
        word: &Vec<char>,
        i: usize,
        stats: &WordStats,
    ) -> (r: Result<(), EncodeError>)
        requires
            i < word.len(),
            *stats == spec_word_stats(word@),
        ensures
            run_done(
                r,
                run_of(final(self), final(flags), *skip, final(result)),
                spec_part_step(run_of(old(self), old(flags), *skip, old(result)), c, word@, i as int),
            ),
    {
        let n = word.len();
        let cells = if n == 2 && i == 0 && word[1] == '.' {
            encode_jongseong(c)?
        } else {
            encode_korean_part(c)?
        };
        let head: u8 = if n >= 3 {
            let alone = (i == 0 && word[1] == '자') || ((i == 0 || is_symbol_char(word[i - 1]))
                && (i == n - 1 || is_symbol_char(word[i + 1])));
            if !alone && stats.has_korean {
                56
            } else {
                63
            }
        } else {
            63
        };
        self.needs_english_continuation = false;
        result.push(head);
        append_cells(result, &cells);
        flags.is_number = false;
        assert(result@ =~= old(result)@ + seq![head] + cells@);
        Ok(())
    }
}


/// The signs before a capital at `i` that has none yet: one for the
/// letter, and one more where the next character is a capital too.
pub open spec fn spec_capital_signs(w: Seq<char>, i: int) -> Seq<u8> {
    if i + 1 < w.len() && is_ascii_uppercase(w[i + 1]) {
        seq![CAPITAL, CAPITAL]
    } else {
        seq![CAPITAL]
    }
}

/// The group of letters that is written as one cell at `i`, if any. At
/// the start of a word, and where no Latin run is open, a word that is
/// not all capitals may open with a group of the word's start, or hold a
/// group of any place. Inside an open run a group of any place is taken,
/// in a word all in capitals too.
pub open spec fn spec_letter_group(in_run: bool, all_upper: bool, w: Seq<char>, i: int) -> Option<
    (u8, usize),
> {
    if !in_run || i == 0 {
        if all_upper {
            None
        } else if spec_rule_en_10_6(w, i) is Some {
            spec_rule_en_10_6(w, i)
        } else {
            spec_rule_en_10_4(w, i)
        }
    } else {
        spec_rule_en_10_4(w, i)
    }
}

/// A Latin letter.
///
/// The run is opened where the text marks its runs and none is open. A
/// capital gets its signs, unless the word is marked as a whole or the
/// stretch of capitals has them already. Then the cell of a group of
/// letters, which takes the letters after this one with it, or the cell of
/// the letter. A letter in lower case ends the stretch of capitals.
pub open spec fn spec_english_step(r: Run, c: char, w: Seq<char>, i: int) -> Result<
    Run,
    EncodeError,
> {
    let stats = spec_word_stats(w);
    let r1 = if r.state.english_indicator && !r.state.is_english {
        spec_enter(r)
    } else {
        r
    };
    let capital = !(stats.all_upper && stats.starts_with_letter) && !r1.is_big_english
        && is_ascii_uppercase(c);
    let r2 = if capital {
        Run { is_big_english: true, ..emit(r1, spec_capital_signs(w, i)) }
    } else {
        r1
    };
    let r3 = match spec_letter_group(r2.state.is_english, stats.all_upper, w, i) {
        Some((cell, k)) => Ok(Run { skip: k as int, ..emit(r2, seq![cell]) }),
        None => match spec_encode_english(c) {
            Some(cell) => Ok(emit(r2, seq![cell])),
            None => Err(EncodeError::UnknownCharacter(c)),
        },
    };
    match r3 {
        Err(e) => Err(e),
        Ok(r4) => Ok(
            Run {
                state: crate::state::spec_enter_state(r4.state),
                is_number: false,
                is_big_english: r4.is_big_english && !is_ascii_lowercase(c),
                ..r4
            },
        ),
    }
}

fn letter_group(in_run: bool, all_upper: bool, word: &Vec<char>, i: usize) -> (r: Option<
    (u8, usize),
>)
    ensures
        r == spec_letter_group(in_run, all_upper, word@, i as int),
{
    if !in_run || i == 0 {
        if all_upper {
            None
        } else {
            match rule_en_10_6(word, i) {
                Some(g) => Some(g),
                None => rule_en_10_4(word, i),
            }
        }
    } else {
        rule_en_10_4(word, i)
    }
}

impl Encoder {
    fn english_step(
        &mut self,
        flags: &mut WordFlags,
        skip: &mut usize,
        result: &mut Vec<u8>,
        c: char,
        word: &Vec<char>,
        i: usize,
        stats: &WordStats,
    ) -> (r: Result<(), EncodeError>)
        requires
            i < word.len(),
            *stats == spec_word_stats(word@),
        ensures
            run_done(
                r,
                run_of(final(self), final(flags), *final(skip), final(result)),
                spec_english_step(
                    run_of(old(self), old(flags), *old(skip), old(result)),
                    c,
                    word@,
                    i as int,
                ),
            ),
    {
        let letter = encode_english(c);
        if self.english_indicator && !self.is_english {
            self.enter_english(result);
        }
        let ghost r1 = run_of(self, flags, *skip, result);
        if !(stats.all_upper && stats.starts_with_letter) && !flags.is_big_english
            && is_ascii_uppercase(c) {
            flags.is_big_english = true;
            result.push(CAPITAL);
            if word.len() - i > 1 && is_ascii_uppercase(word[i + 1]) {
                result.push(CAPITAL);
            }
            assert(result@ =~= r1.out + spec_capital_signs(word@, i as int));
        }
        let ghost r2 = run_of(self, flags, *skip, result);
        match letter_group(self.is_english, stats.all_upper, word, i) {
            Some((cell, k)) => {
                result.push(cell);
                *skip = k;
                assert(result@ =~= r2.out + seq![cell]);
            },
            None => {
                let cell = letter?;
                result.push(cell);
                assert(result@ =~= r2.out + seq![cell]);
            },
        }
        self.is_english = true;
        self.needs_english_continuation = false;
        flags.is_number = false;
        if is_ascii_lowercase(c) {
            flags.is_big_english = false;
        }
        Ok(())
    }
}

/// Whether the digit at `i` follows a full stop or a comma, and so goes on
/// a number that is open already.
pub open spec fn spec_continues_number(w: Seq<char>, i: int) -> bool {
    i > 0 && (w[i - 1] == '.' || w[i - 1] == ',')
}

/// The cell of the digit `c`, or nothing for a character that is none.
pub open spec fn spec_digit_cell(c: char) -> Seq<u8> {
    match spec_encode_number(c) {
        Some(b) => seq![b],
        None => Seq::empty(),
    }
}

/// A digit.
///
/// Outside a number, a fraction that starts here is written whole, and
/// its other characters are passed over. Else the number sign comes first,
/// unless the digit follows a full stop or a comma. Inside a number the
/// digit is written and nothing else.
pub open spec fn spec_number_step(r: Run, c: char, w: Seq<char>, i: int) -> Result<
    Run,
    EncodeError,
> {
    if r.is_number {
        Ok(emit(r, spec_digit_cell(c)))
    } else {
        match spec_find_inline_fraction(w, i) {
            Err(e) => Err(e),
            Ok(Some((num, den, k))) => match spec_encode_fraction_in_context(num, den) {
                Err(e) => Err(e),
                Ok(cells) => Ok(Run { skip: k as int, is_number: true, ..emit(r, cells) }),
            },
            Ok(None) => {
                let sign = if spec_continues_number(w, i) {
                    Seq::empty()
                } else {
                    seq![NUMBER_SIGN]
                };
                Ok(Run { is_number: true, ..emit(r, sign + spec_digit_cell(c)) })
            },
        }
    }
}

impl Encoder {
    fn number_step(
        &mut self,
        flags: &mut WordFlags,
        skip: &mut usize,
        result: &mut Vec<u8>,
        c: char,
        word: &Vec<char>,
        i: usize,
    ) -> (r: Result<(), EncodeError>)
        requires
            i < word.len(),
        ensures
            final(self)@ == old(self)@,
            run_done(
                r,
                run_of(final(self), final(flags), *final(skip), final(result)),
                spec_number_step(
                    run_of(old(self), old(flags), *old(skip), old(result)),
                    c,
                    word@,
                    i as int,
                ),
            ),
    {
        if !flags.is_number {
            match find_inline_fraction(word, i)? {
                Some((num, den, k)) => {
                    let cells = encode_fraction_in_context(&num, &den)?;
                    append_cells(result, &cells);
                    *skip = k;
                    flags.is_number = true;
                    return Ok(());
                },
                None => {},
            }
            if !(i > 0 && (word[i - 1] == '.' || word[i - 1] == ',')) {
                result.push(NUMBER_SIGN);
            }
            flags.is_number = true;
        }
        match encode_number(c) {
            Some(b) => {
                result.push(b);
            },
            None => {},
        }
        proof {
            if !old(flags).is_number {
                let sign = if spec_continues_number(word@, i as int) {
                    Seq::<u8>::empty()
                } else {
                    seq![NUMBER_SIGN]
                };
                assert(result@ =~= old(result)@ + (sign + spec_digit_cell(c)));
            } else {
                assert(result@ =~= old(result)@ + spec_digit_cell(c));
            }
        }
        Ok(())
    }
}

/// A vulgar-fraction character: the fraction, which counts as a number
/// for what follows.
pub open spec fn spec_fraction_step(r: Run, c: char) -> Result<Run, EncodeError> {
    match spec_parse_unicode_fraction(c) {
        None => Ok(r),
        Some((num, den)) => match spec_encode_fraction(num, den) {
            Err(e) => Err(e),
            Ok(cells) => Ok(Run { is_number: true, ..emit(r, cells) }),
        },
    }
}

impl Encoder {
    fn fraction_step(
        &mut self,
        flags: &mut WordFlags,
        skip: &usize,
        result: &mut Vec<u8>,
        c: char,
    ) -> (r: Result<(), EncodeError>)
        ensures
            final(self)@ == old(self)@,
            run_done(
                r,
                run_of(final(self), final(flags), *skip, final(result)),
                spec_fraction_step(run_of(old(self), old(flags), *skip, old(result)), c),
            ),
    {
        match parse_unicode_fraction(c) {
            Some((num, den)) => {
                let cells = encode_fraction(&num, &den)?;
                append_cells(result, &cells);
                flags.is_number = true;
            },
            None => {},
        }
        Ok(())
    }
}

/// White space inside a word: a line break is carried through, anything
/// else is a space.
pub open spec fn spec_space_step(r: Run, c: char) -> Run {
    leave_number(emit(r, seq![if c == '\n' {
        NEWLINE
    } else {
        SPACE
    }]))
}

impl Encoder {
    fn space_step(&mut self, flags: &mut WordFlags, skip: &usize, result: &mut Vec<u8>, c: char)
        ensures
            final(self)@ == old(self)@,
            run_of(final(self), final(flags), *skip, final(result)) =~= spec_space_step(
                run_of(old(self), old(flags), *skip, old(result)),
                c,
            ),
    {
        result.push(if c == '\n' {
            NEWLINE
        } else {
            SPACE
        });
        flags.is_number = false;
    }
}


/// The nearest character before `j` that is no space.
pub open spec fn spec_prefix_char(w: Seq<char>, j: int) -> Option<char>
    decreases j,
{
    if j <= 0 || j > w.len() {
        None
    } else if w[j - 1] == ' ' {
        spec_prefix_char(w, j - 1)
    } else {
        Some(w[j - 1])
    }
}

fn prefix_char(w: &Vec<char>, i: usize) -> (r: Option<char>)
    requires
        i <= w.len(),
    ensures
        r == spec_prefix_char(w@, i as int),
{
    let mut j: usize = i;
    while j > 0 && w[j - 1] == ' '
        invariant
            j <= i <= w.len(),
            spec_prefix_char(w@, j as int) == spec_prefix_char(w@, i as int),
        decreases j,
    {
        j -= 1;
    }
    if j == 0 {
        None
    } else {
        Some(w[j - 1])
    }
}

/// Where the run of placeholder squares that starts at `i` ends.
pub open spec fn spec_placeholder_end(w: Seq<char>, i: int) -> int
    decreases w.len() - i,
{
    if 0 <= i < w.len() && w[i] == '□' {
        spec_placeholder_end(w, i + 1)
    } else {
        i
    }
}

fn placeholder_end(w: &Vec<char>, i: usize) -> (j: usize)
    requires
        i <= w.len(),
    ensures
        j == spec_placeholder_end(w@, i as int),
        i <= j <= w.len(),
{
    let mut j: usize = i;
    while j < w.len() && w[j] == '□'
        invariant
            i <= j <= w.len(),
            spec_placeholder_end(w@, j as int) == spec_placeholder_end(w@, i as int),
        decreases w.len() - j,
    {
        j += 1;
    }
    j
}

/// The stack of open parentheses after the mark `c`, and whether the mark
/// is a Latin one. An opening parenthesis records the governor's answer. A
/// closing one takes the answer that its opening one recorded; with no
/// parenthesis open, the governor's answer stands.
pub open spec fn spec_paren(stack: Seq<bool>, c: char, answer: bool) -> (Seq<bool>, bool) {
    if c == '(' {
        (stack.push(answer), answer)
    } else if c == ')' && stack.len() > 0 {
        (stack.drop_last(), stack.last())
    } else {
        (stack, answer)
    }
}

/// Whether the comma at `i` is one of a number or of Latin text: a digit
/// comes next, and the comma stands in a number or after a digit; or a
/// Latin letter comes before it, and a digit or a Latin letter next.
pub open spec fn spec_is_plain_comma(
    in_number: bool,
    w: Seq<char>,
    i: int,
    rem: Seq<Seq<char>>,
) -> bool {
    let before = spec_prefix_char(w, i);
    let after = spec_next_char(w, i, rem);
    let digit_before = before matches Some(x) && is_ascii_digit(x);
    let letter_before = before matches Some(x) && is_ascii_alphabetic(x);
    let digit_after = after matches Some(x) && is_ascii_digit(x);
    let letter_after = after matches Some(x) && is_ascii_alphabetic(x);
    ((in_number || digit_before) && digit_after) || (letter_before && (digit_after
        || letter_after))
}

/// The cells of a run of `n` placeholder squares: an opening cell, one
/// cell for each square, a closing cell.
pub open spec fn spec_placeholder_cells(n: int) -> Seq<u8> {
    seq![56u8] + Seq::new(n as nat, |k: int| 54u8) + seq![7u8]
}

/// The cells of a mark outside a Latin run, and the number of characters
/// to pass over after it.
pub open spec fn spec_plain_symbol(
    in_number: bool,
    skip: int,
    c: char,
    w: Seq<char>,
    i: int,
    rem: Seq<Seq<char>>,
) -> Result<(Seq<u8>, int), EncodeError> {
    if c == ',' && spec_is_plain_comma(in_number, w, i, rem) {
        Ok((seq![2u8], skip))
    } else if c == '□' {
        let n = spec_placeholder_end(w, i) - i;
        Ok((spec_placeholder_cells(n), n - 1))
    } else {
        match spec_encode_char_symbol_shortcut(c) {
            Some(cells) => Ok((cells, skip)),
            None => Err(EncodeError::MissingSymbolMapping(c)),
        }
    }
}

/// A punctuation mark.
///
/// Parentheses are kept on the stack. A mark of a Latin run, inside a run
/// or where one is waiting to be opened, is written in its Latin form, and
/// a number that is open stays open. Any other mark is written in its
/// Korean form and ends a number.
pub open spec fn spec_symbol_step(
    r: Run,
    c: char,
    w: Seq<char>,
    i: int,
    rem: Seq<Seq<char>>,
) -> Result<
    Run,
    EncodeError,
> {
    let answer = spec_should_render_symbol_as_english(
        r.state.english_indicator,
        r.state.is_english,
        r.state.parenthesis_stack,
        c,
        w,
        i,
        rem,
    );
    let (stack, latin) = spec_paren(r.state.parenthesis_stack, c, answer);
    let r1 = Run { state: crate::state::EncoderState { parenthesis_stack: stack, ..r.state }, ..r };
    if r.state.english_indicator && (r.state.is_english || r.pending) && latin {
        match spec_encode_english_char_symbol_shortcut(c) {
            Some(cells) => Ok(emit(r1, cells)),
            None => Ok(r1),
        }
    } else {
        match spec_plain_symbol(r.is_number, r.skip, c, w, i, rem) {
            Err(e) => Err(e),
            Ok((cells, skip)) => Ok(Run { skip, is_number: false, ..emit(r1, cells) }),
        }
    }
}

fn is_plain_comma(
    in_number: bool,
    word: &Vec<char>,
    i: usize,
    words: &Vec<Vec<char>>,
    next: usize,
) -> (b:
    bool)
    requires
        i < word.len(),
        next <= words.len(),
    ensures
        b == spec_is_plain_comma(in_number, word@, i as int, rest_of(words, next)),
{
    let before = prefix_char(word, i);
    let after = next_char(word, i, words, next);
    let digit_before = match before {
        Some(x) => is_ascii_digit(x),
        None => false,
    };
    let letter_before = match before {
        Some(x) => is_ascii_alphabetic(x),
        None => false,
    };
    let digit_after = match after {
        Some(x) => is_ascii_digit(x),
        None => false,
    };
    let letter_after = match after {
        Some(x) => is_ascii_alphabetic(x),
        None => false,
    };
    ((in_number || digit_before) && digit_after) || (letter_before && (digit_after
        || letter_after))
}

fn push_placeholders(result: &mut Vec<u8>, n: usize)
    ensures
        final(result)@ == old(result)@ + spec_placeholder_cells(n as int),
{
    result.push(56u8);
    let mut k: usize = 0;
    while k < n
        invariant
            k <= n,
            result@ == old(result)@ + seq![56u8] + Seq::new(k as nat, |j: int| 54u8),
        decreases n - k,
    {
        result.push(54u8);
        k += 1;
        assert(result@ =~= old(result)@ + seq![56u8] + Seq::new(k as nat, |j: int| 54u8));
    }
    result.push(7u8);
    assert(result@ =~= old(result)@ + spec_placeholder_cells(n as int));
}

impl Encoder {
    fn symbol_step(
        &mut self,
        flags: &mut WordFlags,
        skip: &mut usize,
        result: &mut Vec<u8>,
        c: char,
        word: &Vec<char>,
        i: usize,
        words: &Vec<Vec<char>>,
        next: usize,
    ) -> (r: Result<(), EncodeError>)
        requires
            i < word.len(),
            word@[i as int] == c,
            next <= words.len(),
        ensures
            run_done(
                r,
                run_of(final(self), final(flags), *final(skip), final(result)),
                spec_symbol_step(
                    run_of(old(self), old(flags), *old(skip), old(result)),
                    c,
                    word@,
                    i as int,
                    rest_of(words, next),
                ),
            ),
    {
        let answer = should_render_symbol_as_english(
            self.english_indicator,
            self.is_english,
            &self.parenthesis_stack,
            c,
            word,
            i,
            words,
            next,
        );
        let depth = self.parenthesis_stack.len();
        let latin = if c == ')' && depth > 0 {
            self.parenthesis_stack[depth - 1]
        } else {
            answer
        };
        if self.english_indicator && (self.is_english || flags.pending) && latin {
            self.keep_parenthesis(c, answer);
            match encode_english_char_symbol_shortcut(c) {
                Some(cells) => {
                    append_cells(result, &cells);
                },
                None => {},
            }
            return Ok(());
        }
        if c == ',' && is_plain_comma(flags.is_number, word, i, words, next) {
            result.push(2u8);
            assert(result@ =~= old(result)@ + seq![2u8]);
        } else if c == '□' {
            let end = placeholder_end(word, i + 1);
            assert(end == spec_placeholder_end(word@, i as int));
            let n = end - i;
            push_placeholders(result, n);
            *skip = n - 1;
        } else {
            let cells = symbol_cells(c)?;
            append_cells(result, &cells);
        }
        self.keep_parenthesis(c, answer);
        flags.is_number = false;
        Ok(())
    }

    /// Records an opening parenthesis with the governor's answer for it,
    /// and takes the last record away at a closing one.
    fn keep_parenthesis(&mut self, c: char, answer: bool)
        ensures
            final(self)@ == (crate::state::EncoderState {
                parenthesis_stack: spec_paren(old(self)@.parenthesis_stack, c, answer).0,
                ..old(self)@
            }),
    {
        if c == '(' {
            self.parenthesis_stack.push(answer);
        } else if c == ')' {
            let _ = self.parenthesis_stack.pop();
        }
        assert(self.parenthesis_stack@ =~= spec_paren(old(self)@.parenthesis_stack, c, answer).0);
    }
}

/// Where the first Hangul syllable at or after `i` stands.
pub open spec fn spec_korean_start(w: Seq<char>, i: int) -> int
    decreases w.len() - i,
{
    if 0 <= i < w.len() && !is_korean_char(w[i]) {
        spec_korean_start(w, i + 1)
    } else {
        i
    }
}

/// Where the run of Hangul syllables that starts at `i` ends.
pub open spec fn spec_korean_end(w: Seq<char>, i: int) -> int
    decreases w.len() - i,
{
    if 0 <= i < w.len() && is_korean_char(w[i]) {
        spec_korean_end(w, i + 1)
    } else {
        i
    }
}

/// The first run of Hangul syllables at or after `i`.
pub open spec fn spec_following_syllables(w: Seq<char>, i: int) -> Seq<char> {
    let a = spec_korean_start(w, i);
    w.subrange(a, spec_korean_end(w, a))
}

/// The particles that stay joined to an arithmetic sign.
pub open spec fn spec_is_particle(s: Seq<char>) -> bool {
    s == seq!['과'] || s == seq!['와'] || s == seq!['랑'] || s == seq!['이', '다'] || s == seq![
        '하',
        '고',
    ] || s == seq!['이', '랑'] || s == seq!['아', '니', '다']
}

/// An arithmetic sign: a space before it where a syllable stands before
/// it in the word, its cells, and a space after it where syllables follow
/// in the word that are no particle.
pub open spec fn spec_math_step(r: Run, c: char, w: Seq<char>, i: int) -> Result<Run, EncodeError> {
    match spec_encode_char_math_symbol_shortcut(c) {
        None => Err(EncodeError::MissingSymbolMapping(c)),
        Some(cells) => {
            let lead = if spec_has_korean_before(w, i) {
                seq![SPACE]
            } else {
                Seq::empty()
            };
            let run = spec_following_syllables(w, i);
            let trail = if i + 1 < w.len() && run.len() > 0 && !spec_is_particle(run) {
                seq![SPACE]
            } else {
                Seq::empty()
            };
            Ok(leave_number(emit(r, lead + cells + trail)))
        },
    }
}

fn korean_start(w: &Vec<char>, i: usize) -> (j: usize)
    requires
        i <= w.len(),
    ensures
        j == spec_korean_start(w@, i as int),
        i <= j <= w.len(),
{
    let mut j: usize = i;
    while j < w.len() && !is_korean_char(w[j])
        invariant
            i <= j <= w.len(),
            spec_korean_start(w@, j as int) == spec_korean_start(w@, i as int),
        decreases w.len() - j,
    {
        j += 1;
    }
    j
}

fn korean_end(w: &Vec<char>, i: usize) -> (j: usize)
    requires
        i <= w.len(),
    ensures
        j == spec_korean_end(w@, i as int),
        i <= j <= w.len(),
{
    let mut j: usize = i;
    while j < w.len() && is_korean_char(w[j])
        invariant
            i <= j <= w.len(),
            spec_korean_end(w@, j as int) == spec_korean_end(w@, i as int),
        decreases w.len() - j,
    {
        j += 1;
    }
    j
}

/// Whether the characters of `w` from `a` up to `b` are a particle.
fn is_particle(w: &Vec<char>, a: usize, b: usize) -> (r: bool)
    requires
        a <= b <= w.len(),
    ensures
        r == spec_is_particle(w@.subrange(a as int, b as int)),
{
    let ghost s = w@.subrange(a as int, b as int);
    let n = b - a;
    proof {
        assert(seq!['과'].len() == 1 && seq!['와'].len() == 1 && seq!['랑'].len() == 1);
        assert(seq!['이', '다'].len() == 2 && seq!['하', '고'].len() == 2 && seq!['이', '랑'].len()
            == 2);
        assert(seq!['아', '니', '다'].len() == 3);
        assert(s.len() == n);
    }
    if n == 1 {
        assert(s =~= seq![w@[a as int]]);
        proof {
            if spec_is_particle(s) {
                assert(seq!['과'][0] == '과' && seq!['와'][0] == '와' && seq!['랑'][0] == '랑');
            }
        }
        w[a] == '과' || w[a] == '와' || w[a] == '랑'
    } else if n == 2 {
        assert(s =~= seq![w@[a as int], w@[a + 1]]);
        proof {
            if spec_is_particle(s) {
                let x = seq!['이', '다'];
                let y = seq!['하', '고'];
                let z = seq!['이', '랑'];
                assert(x[0] == '이' && x[1] == '다' && y[0] == '하' && y[1] == '고' && z[0] == '이'
                    && z[1] == '랑');
            }
        }
        (w[a] == '이' && w[a + 1] == '다') || (w[a] == '하' && w[a + 1] == '고') || (w[a] == '이'
            && w[a + 1] == '랑')
    } else if n == 3 {
        assert(s =~= seq![w@[a as int], w@[a + 1], w@[a + 2]]);
        proof {
            if spec_is_particle(s) {
                let x = seq!['아', '니', '다'];
                assert(x[0] == '아' && x[1] == '니' && x[2] == '다');
            }
        }
        w[a] == '아' && w[a + 1] == '니' && w[a + 2] == '다'
    } else {
        false
    }
}

impl Encoder {
    fn math_step(
        &mut self,
        flags: &mut WordFlags,
        skip: &usize,
        result: &mut Vec<u8>,
        c: char,
        word: &Vec<char>,
        i: usize,
    ) -> (r: Result<(), EncodeError>)
        requires
            i < word.len(),
        ensures
            final(self)@ == old(self)@,
            run_done(
                r,
                run_of(final(self), final(flags), *skip, final(result)),
                spec_math_step(run_of(old(self), old(flags), *skip, old(result)), c, word@, i as int),
            ),
    {
        let cells = encode_char_math_symbol_shortcut(c)?;
        let lead = has_korean_before(word, i);
        if lead {
            result.push(SPACE);
        }
        append_cells(result, &cells);
        let a = korean_start(word, i);
        let b = korean_end(word, a);
        let trail = word.len() - i > 1 && b > a && !is_particle(word, a, b);
        if trail {
            result.push(SPACE);
        }
        flags.is_number = false;
        proof {
            let l = if lead {
                seq![SPACE]
            } else {
                Seq::empty()
            };
            let t = if trail {
                seq![SPACE]
            } else {
                Seq::empty()
            };
            assert(result@ =~= old(result)@ + (l + cells@ + t));
        }
        Ok(())
    }
}


/// What the character `c` of the given class does after the Latin run
/// was settled.
pub open spec fn spec_dispatch(
    r: Run,
    class: CharType,
    c: char,
    w: Seq<char>,
    i: int,
    rem: Seq<Seq<char>>,
) -> Result<Run, EncodeError> {
    match class {
        CharType::Korean(k) => spec_korean_step(r, k, c, w, i),
        CharType::KoreanPart(_) => spec_part_step(r, c, w, i),
        CharType::English(_) => spec_english_step(r, c, w, i),
        CharType::Number(_) => spec_number_step(r, c, w, i),
        CharType::Symbol(_) => spec_symbol_step(r, c, w, i, rem),
        CharType::Space(_) => Ok(spec_space_step(r, c)),
        CharType::MathSymbol(_) => spec_math_step(r, c, w, i),
        CharType::Fraction(_) => spec_fraction_step(r, c),
    }
}

/// One step: the character at `i` of the word `w`, before the words
/// `rem`.
///
/// A character that an earlier step took with it is passed over. Else a
/// waiting Latin run is opened where the character asks for it, the
/// character is classed, an open Latin run is kept or ended, and the class
/// decides what is written. A character of no class is the error.
pub open spec fn spec_step(r: Run, w: Seq<char>, i: int, rem: Seq<Seq<char>>) -> Result<
    Run,
    EncodeError,
> {
    if r.skip > 0 {
        Ok(Run { skip: r.skip - 1, ..r })
    } else {
        let c = w[i];
        match crate::char_struct::spec_classify(c) {
            Err(e) => Err(e),
            Ok(class) => spec_dispatch(
                spec_arbitrate(spec_open_pending(r, c, w, i, rem), class, w, i, rem),
                class,
                c,
                w,
                i,
                rem,
            ),
        }
    }
}

/// The steps from `i` to the end of the word, one after the other. The
/// first error ends the walk.
pub open spec fn spec_walk(r: Run, w: Seq<char>, i: int, rem: Seq<Seq<char>>) -> Result<
    Run,
    EncodeError,
>
    decreases w.len() - i,
{
    if i < 0 || i >= w.len() {
        Ok(r)
    } else {
        match spec_step(r, w, i, rem) {
            Err(e) => Err(e),
            Ok(r2) => spec_walk(r2, w, i + 1, rem),
        }
    }
}

impl Encoder {
    fn step(
        &mut self,
        flags: &mut WordFlags,
        skip: &mut usize,
        result: &mut Vec<u8>,
        word: &Vec<char>,
        i: usize,
        words: &Vec<Vec<char>>,
        next: usize,
        stats: &WordStats,
    ) -> (r: Result<(), EncodeError>)
        requires
            i < word.len(),
            next <= words.len(),
            *stats == spec_word_stats(word@),
        ensures
            run_done(
                r,
                run_of(final(self), final(flags), *final(skip), final(result)),
                spec_step(
                    run_of(old(self), old(flags), *old(skip), old(result)),
                    word@,
                    i as int,
                    rest_of(words, next),
                ),
            ),
    {
        if *skip > 0 {
            *skip -= 1;
            return Ok(());
        }
        let c = word[i];
        let class = CharType::new(c)?;
        self.open_pending(flags, skip, result, c, word, i, words, next);
        self.arbitrate(flags, skip, result, &class, word, i, words, next);
        match class {
            CharType::Korean(k) => self.korean_step(flags, skip, result, &k, c, word, i),
            CharType::KoreanPart(_) => self.part_step(flags, skip, result, c, word, i, stats),
            CharType::English(_) => self.english_step(flags, skip, result, c, word, i, stats),
            CharType::Number(_) => self.number_step(flags, skip, result, c, word, i),
            CharType::Symbol(_) => self.symbol_step(flags, skip, result, c, word, i, words, next),
            CharType::Space(_) => {
                self.space_step(flags, skip, result, c);
                Ok(())
            },
            CharType::MathSymbol(_) => self.math_step(flags, skip, result, c, word, i),
            CharType::Fraction(_) => self.fraction_step(flags, skip, result, c),
        }
    }

    /// Walks through the whole word.
    pub(crate) fn walk(
        &mut self,
        flags: &mut WordFlags,
        skip: &mut usize,
        result: &mut Vec<u8>,
        word: &Vec<char>,
        words: &Vec<Vec<char>>,
        next: usize,
        stats: &WordStats,
    ) -> (r: Result<(), EncodeError>)
        requires
            next <= words.len(),
            *stats == spec_word_stats(word@),
        ensures
            run_done(
                r,
                run_of(final(self), final(flags), *final(skip), final(result)),
                spec_walk(
                    run_of(old(self), old(flags), *old(skip), old(result)),
                    word@,
                    0,
                    rest_of(words, next),
                ),
            ),
    {
        let ghost start = run_of(self, flags, *skip, result);
        let ghost rem = rest_of(words, next);
        let mut i: usize = 0;
        while i < word.len()
            invariant
                i <= word.len(),
                next <= words.len(),
                rem == rest_of(words, next),
                start == run_of(old(self), old(flags), *old(skip), old(result)),
                *stats == spec_word_stats(word@),
                spec_walk(run_of(self, flags, *skip, result), word@, i as int, rem) == spec_walk(
                    start,
                    word@,
                    0,
                    rem,
                ),
            decreases word.len() - i,
        {
            let ghost cur = run_of(self, flags, *skip, result);
            match self.step(flags, skip, result, word, i, words, next, stats) {
                Ok(()) => {},
                Err(e) => {
                    assert(spec_walk(cur, word@, i as int, rem) == Err::<Run, EncodeError>(e));
                    return Err(e);
                },
            }
            i += 1;
        }
        Ok(())
    }
}

} // verus!
