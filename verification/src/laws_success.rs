//! When an encoding succeeds.

use vstd::prelude::*;
use crate::char_struct::{
    spec_cho_at, spec_classify, spec_decompose, spec_jong_at, spec_jung_at, CharType,
};
use crate::error::EncodeError;
use crate::fraction::{
    regex_compiles, spec_digit_cells, spec_digit_run, spec_encode_fraction, spec_fraction_pattern,
    spec_parse_unicode_fraction,
};
use crate::jauem::spec_encode_choseong;
use crate::korean_char::{spec_encode_korean_char, spec_final_cells, spec_split_jongseong};
use crate::korean_part::spec_encode_korean_part;
use crate::moeum::spec_encode_jungsong;
use crate::split::spec_split_korean_jauem;
use crate::step::{
    spec_full_form_cells, spec_is_open_syllable, spec_open_form_cells, spec_syllable_cells,
};
use crate::encoder::spec_encode;
use crate::laws_short_form::{
    lemma_short_form_keeps, lemma_short_form_no_bare, spec_no_bare_number,
};
use crate::state::Run;
use crate::step::{
    spec_arbitrate, spec_dispatch, spec_lacks_final_form, spec_open_pending, spec_step, spec_walk,
};
use crate::text::{
    lemma_word_end_bounds, spec_normalize, spec_word_end, spec_words, spec_words_from,
};
use crate::utils::{is_ascii_digit, is_korean_char, is_korean_part};
use crate::word::{
    lemma_normalize_len, lemma_words_total, spec_encode_word, spec_encode_words, spec_latex_cells,
    spec_total_len, spec_word_start, Progress,
};
use crate::word_shortcut::spec_split_word_shortcut;

verus! {

/// The plain form of an initial consonant.
pub open spec fn spec_plain_initial(c: char) -> char {
    match spec_split_korean_jauem(c) {
        Some(parts) => parts.0,
        None => c,
    }
}

/// An initial of the syllable block has a plain form, and the plain form
/// has a cell.
proof fn lemma_initial_has_cell(i: u32)
    requires
        i < 19,
    ensures
        spec_split_korean_jauem(spec_cho_at(i)) is Some,
        spec_encode_choseong(spec_plain_initial(spec_cho_at(i))) is Some,
{
}

/// A medial of the syllable block has cells.
proof fn lemma_medial_has_cells(i: u32)
    requires
        i < 21,
    ensures
        spec_encode_jungsong(spec_jung_at(i)) is Some,
{
}

/// A final of the syllable block has cells, and so has the second part of
/// a compound one.
proof fn lemma_final_has_cells(i: u32)
    requires
        i < 28,
    ensures
        spec_final_cells(spec_jong_at(i)) is Ok,
        spec_jong_at(i) is Some ==> spec_final_cells(
            spec_split_jongseong(spec_jong_at(i)->0).1,
        ) is Ok,
{
}

/// Every syllable has cells, in its usual form and letter by letter.
pub proof fn lemma_syllable_has_cells(c: char)
    requires
        is_korean_char(c),
    ensures
        spec_encode_korean_char(spec_decompose(c)) is Ok,
        spec_full_form_cells(spec_decompose(c)) is Ok,
{
    let b = (c as u32 - 0xAC00) as u32;
    let k = spec_decompose(c);
    lemma_initial_has_cell((b / 588) as u32);
    lemma_medial_has_cells(((b % 588) / 28) as u32);
    lemma_final_has_cells((b % 28) as u32);
}

/// A syllable of a plain consonant and `ㅏ` has cells with its vowel
/// written out.
proof fn lemma_open_syllable_has_cells(c: char)
    requires
        spec_is_open_syllable(c),
    ensures
        spec_open_form_cells(spec_decompose(c)) is Ok,
{
}

/// The cells of a syllable at its place in a word.
pub proof fn lemma_syllable_in_word(c: char, w: Seq<char>, i: int)
    requires
        is_korean_char(c),
    ensures
        spec_syllable_cells(spec_decompose(c), c, w, i) is Ok,
{
    lemma_syllable_has_cells(c);
    if spec_is_open_syllable(c) {
        lemma_open_syllable_has_cells(c);
    }
}

/// Every letter has cells where it stands on its own.
pub proof fn lemma_letter_has_own_form(c: char)
    requires
        is_korean_part(c),
    ensures
        spec_encode_korean_part(c) is Some,
{
    let u = c as u32;
    assert(u == 0x3131 || u == 0x3132 || u == 0x3133 || u == 0x3134 || u == 0x3135 || u == 0x3136
        || u == 0x3137 || u == 0x3138 || u == 0x3139 || u == 0x313A || u == 0x313B || u == 0x313C
        || u == 0x313D || u == 0x313E || u == 0x313F || u == 0x3140 || u == 0x3141 || u == 0x3142
        || u == 0x3143 || u == 0x3144 || u == 0x3145 || u == 0x3146 || u == 0x3147 || u == 0x3148
        || u == 0x3149 || u == 0x314A || u == 0x314B || u == 0x314C || u == 0x314D || u == 0x314E
        || u == 0x314F || u == 0x3150 || u == 0x3151 || u == 0x3152 || u == 0x3153 || u == 0x3154
        || u == 0x3155 || u == 0x3156 || u == 0x3157 || u == 0x3158 || u == 0x3159 || u == 0x315A
        || u == 0x315B || u == 0x315C || u == 0x315D || u == 0x315E || u == 0x315F || u == 0x3160
        || u == 0x3161 || u == 0x3162 || u == 0x3163);
}

/// A run of digits has cells.
pub proof fn lemma_digits_have_cells(s: Seq<char>)
    requires
        forall|k: int| 0 <= k < s.len() ==> is_ascii_digit(#[trigger] s[k]),
    ensures
        spec_digit_cells(s) is Ok,
    decreases s.len(),
{
    if s.len() > 0 {
        lemma_digits_have_cells(s.drop_last());
        crate::laws_number::lemma_digit_has_cell(s.last());
    }
}

/// A vulgar-fraction character has cells.
pub proof fn lemma_vulgar_fraction_has_cells(c: char)
    ensures
        spec_parse_unicode_fraction(c) matches Some((num, den)) ==> spec_encode_fraction(num, den)
            is Ok,
{
    if spec_parse_unicode_fraction(c) is Some {
        let (num, den) = spec_parse_unicode_fraction(c)->0;
        lemma_digits_have_cells(num);
        lemma_digits_have_cells(den);
    }
}


/// Whether every character has a class.
pub open spec fn spec_all_known(s: Seq<char>) -> bool {
    forall|k: int| 0 <= k < s.len() ==> spec_classify(#[trigger] s[k]) is Ok
}

/// Whether the characters can be encoded wherever they stand in a text:
/// each has a class, and no letter without a form as a final stands right
/// before a full stop.
pub open spec fn spec_encodable(s: Seq<char>) -> bool {
    spec_all_known(s) && spec_no_bare_number(s)
}

/// A step through a word of known characters succeeds, unless the word
/// numbers a list with a letter that has no form as a final.
proof fn lemma_step_succeeds(r: Run, w: Seq<char>, i: int, rem: Seq<Seq<char>>)
    requires
        0 <= i < w.len(),
        spec_encodable(w),
        regex_compiles(spec_fraction_pattern()),
    ensures
        spec_step(r, w, i, rem) is Ok,
{
    if r.skip <= 0 {
        let c = w[i];
        assert(spec_classify(c) is Ok);
        let class = spec_classify(c)->Ok_0;
        let at = spec_arbitrate(spec_open_pending(r, c, w, i, rem), class, w, i, rem);
        match class {
            CharType::Korean(k) => {
                lemma_syllable_in_word(c, w, i);
            },
            CharType::KoreanPart(_) => {
                lemma_letter_has_own_form(c);
                if w.len() == 2 && i == 0 && w[1] == '.' {
                    assert(!spec_lacks_final_form(w[0]));
                }
            },
            CharType::English(_) => {
                crate::laws_capital::lemma_letter_has_cell(c);
            },
            CharType::Number(_) => {
                if !at.is_number {
                    let found = crate::fraction::spec_find_inline_fraction(w, i);
                    if found->Ok_0 is Some {
                        let (num, den, _) = found->Ok_0->0;
                        lemma_digits_have_cells(num);
                        lemma_digits_have_cells(den);
                    }
                }
            },
            CharType::Symbol(_) => {},
            CharType::Space(_) => {},
            CharType::MathSymbol(_) => {},
            CharType::Fraction(_) => {
                lemma_vulgar_fraction_has_cells(c);
            },
        }
        assert(spec_dispatch(at, class, c, w, i, rem) is Ok);
    }
}

proof fn lemma_walk_succeeds(r: Run, w: Seq<char>, i: int, rem: Seq<Seq<char>>)
    requires
        0 <= i,
        spec_encodable(w),
        regex_compiles(spec_fraction_pattern()),
    ensures
        spec_walk(r, w, i, rem) is Ok,
    decreases w.len() - i,
{
    if i < w.len() {
        lemma_step_succeeds(r, w, i, rem);
        lemma_walk_succeeds(spec_step(r, w, i, rem)->Ok_0, w, i + 1, rem);
    }
}

proof fn lemma_digit_run_is_digits(w: Seq<char>, i: int)
    requires
        0 <= i <= w.len(),
    ensures
        forall|k: int| i <= k < spec_digit_run(w, i) ==> is_ascii_digit(#[trigger] w[k]),
    decreases w.len() - i,
{
    if i < w.len() && is_ascii_digit(w[i]) {
        lemma_digit_run_is_digits(w, i + 1);
    }
}

/// A fraction between dollar signs has cells.
proof fn lemma_latex_succeeds(w: Seq<char>)
    ensures
        spec_latex_cells(w) matches Some(cells) ==> cells is Ok,
{
    if spec_latex_cells(w) is Some {
        let a = spec_digit_run(w, 1);
        crate::fraction::lemma_digit_run_bounds(w, 1);
        lemma_digit_run_is_digits(w, 1);
        let b = spec_digit_run(w, a + 6);
        crate::fraction::lemma_digit_run_bounds(w, a + 6);
        lemma_digit_run_is_digits(w, a + 6);
        let c = spec_digit_run(w, b + 2);
        crate::fraction::lemma_digit_run_bounds(w, b + 2);
        lemma_digit_run_is_digits(w, b + 2);
        lemma_digits_have_cells(w.subrange(1, a));
        lemma_digits_have_cells(w.subrange(a + 6, b));
        lemma_digits_have_cells(w.subrange(b + 2, c));
    }
}

/// A piece of an encodable text is encodable.
proof fn lemma_piece_encodable(s: Seq<char>, a: int, b: int)
    requires
        0 <= a <= b <= s.len(),
        spec_encodable(s),
    ensures
        spec_encodable(s.subrange(a, b)),
{
    let t = s.subrange(a, b);
    assert forall|k: int| 0 <= k < t.len() implies spec_classify(#[trigger] t[k]) is Ok by {
        assert(t[k] == s[a + k]);
    }
    assert forall|k: int| 0 <= k && k + 1 < t.len() implies !(spec_lacks_final_form(
        #[trigger] t[k],
    ) && t[k + 1] == '.') by {
        assert(t[k] == s[a + k] && t[k + 1] == s[a + k + 1]);
    }
}

/// Whether the word can be encoded: its characters are encodable, or it
/// is a fraction between dollar signs.
pub open spec fn spec_word_encodable(word: Seq<char>) -> bool {
    spec_encodable(word) || spec_latex_cells(spec_normalize(word)) is Some
}

/// Whether every word can be encoded.
pub open spec fn spec_all_encodable(ws: Seq<Seq<char>>) -> bool {
    forall|k: int| 0 <= k < ws.len() ==> spec_word_encodable(#[trigger] ws[k])
}

/// The words of an encodable text are encodable.
proof fn lemma_words_encodable(s: Seq<char>, i: int)
    requires
        0 <= i <= s.len(),
        spec_encodable(s),
    ensures
        spec_all_encodable(spec_words_from(s, i)),
    decreases s.len() - i,
{
    if i < s.len() {
        if s[i] == ' ' {
            lemma_words_encodable(s, i + 1);
        } else {
            let j = spec_word_end(s, i + 1);
            lemma_word_end_bounds(s, i + 1);
            lemma_words_encodable(s, j);
            lemma_piece_encodable(s, i, j);
            let ws = spec_words_from(s, i);
            let rest = spec_words_from(s, j);
            assert forall|k: int| 0 <= k < ws.len() implies spec_word_encodable(
                #[trigger] ws[k],
            ) by {
                if k > 0 {
                    assert(ws[k] == rest[k - 1]);
                }
            }
        }
    }
}

/// The short form of an encodable word is encodable.
proof fn lemma_short_form_encodable(w: Seq<char>)
    requires
        spec_encodable(w),
    ensures
        spec_encodable(spec_normalize(w)),
{
    let out = spec_normalize(w);
    lemma_short_form_keeps(w);
    lemma_short_form_no_bare(w);
    assert forall|k: int| 0 <= k < out.len() implies spec_classify(#[trigger] out[k]) is Ok by {
        assert(out.contains(out[k]));
        let m = choose|m: int| 0 <= m < w.len() && w[m] == out[k];
        assert(spec_classify(w[m]) is Ok);
    }
}

proof fn lemma_word_succeeds(
    p: Progress,
    skip: int,
    word: Seq<char>,
    prev: Seq<char>,
    rem: Seq<Seq<char>>,
)
    requires
        spec_word_encodable(word),
        regex_compiles(spec_fraction_pattern()),
    ensures
        spec_encode_word(p, skip, word, prev, rem) is Ok,
    decreases word.len(), 0int,
{
    let w = spec_normalize(word);
    lemma_latex_succeeds(w);
    if spec_latex_cells(w) is None {
        lemma_short_form_encodable(word);
        match spec_split_word_shortcut(w) {
            Some((code, n)) => {
                let pa = Progress { out: p.out + code, ..p };
                let rest = w.subrange(n as int, w.len() as int);
                crate::word_shortcut::lemma_shortcut_shape(w);
                if rest.len() > 0 {
                    lemma_normalize_len(word);
                    lemma_words_total(rest, 0);
                    lemma_piece_encodable(w, n as int, w.len() as int);
                    lemma_words_encodable(rest, 0);
                    lemma_words_succeed(pa, Seq::empty(), spec_words(rest));
                }
            },
            None => {
                lemma_walk_succeeds(spec_word_start(p, skip, w, prev, rem), w, 0, rem);
            },
        }
    }
}

proof fn lemma_words_succeed(p: Progress, prev: Seq<char>, ws: Seq<Seq<char>>)
    requires
        spec_all_encodable(ws),
        regex_compiles(spec_fraction_pattern()),
    ensures
        spec_encode_words(p, prev, ws) is Ok,
    decreases spec_total_len(ws), 1 + ws.len(),
{
    if ws.len() > 0 {
        assert(spec_word_encodable(ws[0]));
        lemma_word_succeeds(p, 0, ws[0], prev, ws.skip(1));
        let pa = spec_encode_word(p, 0, ws[0], prev, ws.skip(1))->Ok_0.0;
        assert(spec_all_encodable(ws.skip(1))) by {
            assert forall|k: int| 0 <= k < ws.skip(1).len() implies spec_word_encodable(
                #[trigger] ws.skip(1)[k],
            ) by {
                assert(ws.skip(1)[k] == ws[k + 1]);
            }
        }
        lemma_words_succeed(pa, ws[0], ws.skip(1));
    }
}

/// Success is owed to every word that can be encoded, as long as the
/// pattern engine takes the pattern of fractions.
pub proof fn lemma_encodable_word_succeeds(
    p: Progress,
    skip: int,
    word: Seq<char>,
    prev: Seq<char>,
    rem: Seq<Seq<char>>,
)
    requires
        spec_word_encodable(word),
    ensures
        regex_compiles(spec_fraction_pattern()) ==> spec_encode_word(p, skip, word, prev, rem)
            is Ok,
{
    if regex_compiles(spec_fraction_pattern()) {
        lemma_word_succeeds(p, skip, word, prev, rem);
    }
}

/// Success is owed to every text whose words can all be encoded: each
/// word is a fraction between dollar signs, or all its characters have a
/// class and no letter without a form as a final stands right before a
/// full stop in it. The pattern engine must take the pattern of fractions.
pub proof fn lemma_encodable_words_succeed(text: Seq<char>)
    requires
        spec_all_encodable(spec_words(text)),
    ensures
        regex_compiles(spec_fraction_pattern()) ==> spec_encode(text) is Ok,
{
    if regex_compiles(spec_fraction_pattern()) {
        let p = Progress {
            state: crate::encoder::spec_fresh(crate::word_stats::spec_has_korean(text)),
            out: Seq::empty(),
        };
        lemma_words_succeed(p, Seq::empty(), spec_words(text));
    }
}

/// Success is owed to every text whose characters all have a class and in
/// which no letter without a form as a final stands right before a full
/// stop, as long as the pattern engine takes the pattern of fractions.
pub proof fn lemma_encodable_text_succeeds(text: Seq<char>)
    requires
        spec_encodable(text),
    ensures
        regex_compiles(spec_fraction_pattern()) ==> spec_encode(text) is Ok,
{
    lemma_words_encodable(text, 0);
    lemma_encodable_words_succeed(text);
}

/// Whether the error is one that the characters `s` can bring about: a
/// character of `s` without a class, a letter of `s` that has no form as a
/// final and was to number a list, or a pattern that the engine refused.
pub open spec fn spec_blames(e: EncodeError, s: Seq<char>) -> bool {
    match e {
        EncodeError::UnknownCharacter(c) => s.contains(c) && spec_classify(c) is Err,
        EncodeError::MissingKoreanComponent(c) => s.contains(c) && spec_lacks_final_form(c),
        EncodeError::BadPattern => !regex_compiles(spec_fraction_pattern()),
        _ => false,
    }
}

proof fn lemma_blames_more(e: EncodeError, s: Seq<char>, t: Seq<char>)
    requires
        spec_blames(e, s),
        forall|c: char| s.contains(c) ==> t.contains(c),
    ensures
        spec_blames(e, t),
{
}

proof fn lemma_step_blames(r: Run, w: Seq<char>, i: int, rem: Seq<Seq<char>>)
    requires
        0 <= i < w.len(),
        spec_step(r, w, i, rem) is Err,
    ensures
        spec_blames(spec_step(r, w, i, rem)->Err_0, w),
{
    let c = w[i];
    assert(w.contains(c));
    if spec_classify(c) is Ok {
        let class = spec_classify(c)->Ok_0;
        let at = spec_arbitrate(spec_open_pending(r, c, w, i, rem), class, w, i, rem);
        match class {
            CharType::Korean(k) => {
                lemma_syllable_in_word(c, w, i);
            },
            CharType::KoreanPart(_) => {
                lemma_letter_has_own_form(c);
            },
            CharType::English(_) => {
                crate::laws_capital::lemma_letter_has_cell(c);
            },
            CharType::Number(_) => {
                if !at.is_number {
                    let found = crate::fraction::spec_find_inline_fraction(w, i);
                    if found is Ok && found->Ok_0 is Some {
                        let (num, den, _) = found->Ok_0->0;
                        lemma_digits_have_cells(num);
                        lemma_digits_have_cells(den);
                    }
                }
            },
            CharType::Symbol(_) => {},
            CharType::Space(_) => {},
            CharType::MathSymbol(_) => {},
            CharType::Fraction(_) => {
                lemma_vulgar_fraction_has_cells(c);
            },
        }
    }
}

proof fn lemma_walk_blames(r: Run, w: Seq<char>, i: int, rem: Seq<Seq<char>>)
    requires
        0 <= i,
        spec_walk(r, w, i, rem) is Err,
    ensures
        spec_blames(spec_walk(r, w, i, rem)->Err_0, w),
    decreases w.len() - i,
{
    if i < w.len() {
        if spec_step(r, w, i, rem) is Err {
            lemma_step_blames(r, w, i, rem);
        } else {
            lemma_walk_blames(spec_step(r, w, i, rem)->Ok_0, w, i + 1, rem);
        }
    }
}

/// Whether the error is one that a word of the list can bring about.
pub open spec fn spec_blames_a_word(e: EncodeError, ws: Seq<Seq<char>>) -> bool {
    exists|k: int| 0 <= k < ws.len() && spec_blames(e, #[trigger] ws[k])
}

/// A character of a word of a text is a character of the text.
proof fn lemma_word_holds_chars(s: Seq<char>, i: int, k: int, c: char)
    requires
        0 <= i <= s.len(),
        0 <= k < spec_words_from(s, i).len(),
        spec_words_from(s, i)[k].contains(c),
    ensures
        s.contains(c),
    decreases s.len() - i,
{
    if i < s.len() {
        if s[i] == ' ' {
            lemma_word_holds_chars(s, i + 1, k, c);
        } else {
            let j = spec_word_end(s, i + 1);
            lemma_word_end_bounds(s, i + 1);
            let word = s.subrange(i, j);
            if k == 0 {
                let m = choose|m: int| 0 <= m < word.len() && word[m] == c;
                assert(s[i + m] == c);
            } else {
                assert(spec_words_from(s, i)[k] == spec_words_from(s, j)[k - 1]);
                lemma_word_holds_chars(s, j, k - 1, c);
            }
        }
    }
}

proof fn lemma_word_blames(
    p: Progress,
    skip: int,
    word: Seq<char>,
    prev: Seq<char>,
    rem: Seq<Seq<char>>,
)
    requires
        spec_encode_word(p, skip, word, prev, rem) is Err,
    ensures
        spec_blames(spec_encode_word(p, skip, word, prev, rem)->Err_0, word),
    decreases word.len(), 0int,
{
    let w = spec_normalize(word);
    let e = spec_encode_word(p, skip, word, prev, rem)->Err_0;
    lemma_latex_succeeds(w);
    lemma_short_form_keeps(word);
    if spec_latex_cells(w) is None {
        match spec_split_word_shortcut(w) {
            Some((code, n)) => {
                let pa = Progress { out: p.out + code, ..p };
                let rest = w.subrange(n as int, w.len() as int);
                crate::word_shortcut::lemma_shortcut_shape(w);
                lemma_normalize_len(word);
                lemma_words_total(rest, 0);
                let ws = spec_words(rest);
                lemma_words_blame(pa, Seq::empty(), ws);
                let k = choose|k: int| 0 <= k < ws.len() && spec_blames(e, #[trigger] ws[k]);
                assert forall|c: char| ws[k].contains(c) implies word.contains(c) by {
                    lemma_word_holds_chars(rest, 0, k, c);
                    let m = choose|m: int| 0 <= m < rest.len() && rest[m] == c;
                    assert(w[n as int + m] == c);
                    assert(w.contains(c));
                }
                lemma_blames_more(e, ws[k], word);
            },
            None => {
                lemma_walk_blames(spec_word_start(p, skip, w, prev, rem), w, 0, rem);
                lemma_blames_more(e, w, word);
            },
        }
    }
}

proof fn lemma_words_blame(p: Progress, prev: Seq<char>, ws: Seq<Seq<char>>)
    requires
        spec_encode_words(p, prev, ws) is Err,
    ensures
        spec_blames_a_word(spec_encode_words(p, prev, ws)->Err_0, ws),
    decreases spec_total_len(ws), 1 + ws.len(),
{
    let e = spec_encode_words(p, prev, ws)->Err_0;
    if ws.len() > 0 {
        let first = spec_encode_word(p, 0, ws[0], prev, ws.skip(1));
        if first is Err {
            lemma_word_blames(p, 0, ws[0], prev, ws.skip(1));
            assert(spec_blames(e, ws[0]));
        } else {
            lemma_words_blame(first->Ok_0.0, ws[0], ws.skip(1));
            let k = choose|k: int|
                0 <= k < ws.skip(1).len() && spec_blames(e, #[trigger] ws.skip(1)[k]);
            assert(ws.skip(1)[k] == ws[k + 1]);
            assert(spec_blames(e, ws[k + 1]));
        }
    }
}

/// An encoding fails only for one of three reasons: a character of the
/// text has no class, a letter of the text that has no form as a final was
/// to number a list, or the pattern engine refused the pattern of
/// fractions. No syllable and no punctuation mark of the text is ever
/// without cells.
pub proof fn lemma_errors_blame_the_text(text: Seq<char>)
    ensures
        spec_encode(text) matches Err(e) ==> spec_blames(e, text),
{
    if spec_encode(text) is Err {
        let e = spec_encode(text)->Err_0;
        let p = Progress {
            state: crate::encoder::spec_fresh(crate::word_stats::spec_has_korean(text)),
            out: Seq::empty(),
        };
        let ws = spec_words(text);
        lemma_words_blame(p, Seq::empty(), ws);
        let k = choose|k: int| 0 <= k < ws.len() && spec_blames(e, #[trigger] ws[k]);
        assert forall|c: char| ws[k].contains(c) implies text.contains(c) by {
            lemma_word_holds_chars(text, 0, k, c);
        }
        lemma_blames_more(e, ws[k], text);
    }
}


/// Whether the characters that the run is about to pass over, from `i`
/// on, all have a class.
pub open spec fn spec_skips_known(r: Run, w: Seq<char>, i: int) -> bool {
    &&& 0 <= r.skip
    &&& forall|j: int| i <= j < i + r.skip && j < w.len() ==> spec_classify(#[trigger] w[j]) is Ok
}

/// Whether the characters from `i` up to and with `i + n` are Latin
/// letters of the word.
pub open spec fn spec_letters_through(w: Seq<char>, i: int, n: int) -> bool {
    &&& i + n < w.len()
    &&& forall|j: int| i <= j <= i + n ==> crate::utils::is_ascii_alphabetic(#[trigger] w[j])
}

/// The number of letters that a group takes after its first.
spec fn spec_taken(found: Option<(u8, usize)>) -> int {
    match found {
        Some(group) => group.1 as int,
        None => 0,
    }
}

proof fn lemma_lower_is_letter(w: Seq<char>, j: int, c: char)
    requires
        0 <= j,
        crate::utils::is_ascii_lowercase(c),
        crate::rule_en::spec_lower_at(w, j) == c,
    ensures
        j < w.len(),
        crate::utils::is_ascii_alphabetic(w[j]),
{
}

proof fn lemma_group_is_letters(table: Seq<(Seq<char>, u8)>, w: Seq<char>, i: int, from: int)
    requires
        0 <= from,
        0 <= i,
        forall|k: int, j: int|
            0 <= k < table.len() && 0 <= j < table[k].0.len() ==> crate::utils::is_ascii_lowercase(
                #[trigger] table[k].0[j],
            ),
        forall|k: int| 0 <= k < table.len() ==> 1 <= (#[trigger] table[k]).0.len() <= 4,
    ensures
        crate::rule_en::spec_find_group(table, w, i, from) is Some ==> spec_letters_through(
            w,
            i,
            spec_taken(crate::rule_en::spec_find_group(table, w, i, from)),
        ),
    decreases table.len() - from,
{
    if from < table.len() {
        let group = table[from].0;
        assert(1 <= group.len() <= 4);
        if crate::rule_en::spec_has_group_at(w, i, group) {
            let n = group.len() - 1;
            assert forall|j: int| i <= j <= i + n implies j < w.len()
                && crate::utils::is_ascii_alphabetic(#[trigger] w[j]) by {
                let k = j - i;
                assert(crate::utils::is_ascii_lowercase(table[from].0[k]));
                assert(crate::rule_en::spec_lower_at(w, i + k) == group[k]);
                lemma_lower_is_letter(w, j, group[k]);
            }
            assert(i + n < w.len()) by {
                assert(crate::utils::is_ascii_lowercase(table[from].0[n]));
                assert(crate::rule_en::spec_lower_at(w, i + n) == group[n]);
                lemma_lower_is_letter(w, i + n, group[n]);
            }
            assert(spec_letters_through(w, i, n));
            let found = crate::rule_en::spec_find_group(table, w, i, from);
            assert(found == Some((table[from].1, n as usize)));
            assert(spec_taken(found) == n);
        } else {
            lemma_group_is_letters(table, w, i, from + 1);
            assert(crate::rule_en::spec_find_group(table, w, i, from)
                == crate::rule_en::spec_find_group(table, w, i, from + 1));
        }
    }
}

/// The letters that a group of letters takes with it are letters of the
/// word.
proof fn lemma_letter_group_is_letters(in_run: bool, all_upper: bool, w: Seq<char>, i: int)
    requires
        0 <= i,
    ensures
        crate::step::spec_letter_group(in_run, all_upper, w, i) is Some ==> spec_letters_through(
            w,
            i,
            spec_taken(crate::step::spec_letter_group(in_run, all_upper, w, i)),
        ),
{
    reveal(crate::rule_en::spec_rule_en_10_4);
    reveal(crate::rule_en::spec_rule_en_10_6);
    let anywhere = crate::rule_en::spec_groups_anywhere();
    let at_start = crate::rule_en::spec_groups_at_start();
    assert forall|k: int, j: int|
        0 <= k < anywhere.len() && 0 <= j < anywhere[k].0.len() implies crate::utils::is_ascii_lowercase(
        #[trigger] anywhere[k].0[j],
    ) by {
        assert(k == 0 || k == 1 || k == 2 || k == 3 || k == 4 || k == 5 || k == 6 || k == 7 || k
            == 8 || k == 9 || k == 10 || k == 11 || k == 12 || k == 13 || k == 14 || k == 15 || k
            == 16 || k == 17 || k == 18);
        assert(j == 0 || j == 1 || j == 2 || j == 3);
    }
    assert forall|k: int, j: int|
        0 <= k < at_start.len() && 0 <= j < at_start[k].0.len() implies crate::utils::is_ascii_lowercase(
        #[trigger] at_start[k].0[j],
    ) by {
        assert(k == 0 || k == 1 || k == 2);
        assert(j == 0 || j == 1 || j == 2);
    }
    lemma_group_is_letters(anywhere, w, i, 0);
    lemma_group_is_letters(at_start, w, i, 0);
}

proof fn lemma_placeholders_between(w: Seq<char>, i: int)
    requires
        0 <= i <= w.len(),
    ensures
        i <= crate::step::spec_placeholder_end(w, i) <= w.len(),
        forall|j: int| i <= j < crate::step::spec_placeholder_end(w, i) ==> #[trigger] w[j] == '□',
    decreases w.len() - i,
{
    if i < w.len() && w[i] == '□' {
        lemma_placeholders_between(w, i + 1);
    }
}

proof fn lemma_english_skips_known(r: Run, c: char, w: Seq<char>, i: int)
    requires
        0 <= i < w.len(),
        r.skip == 0,
        crate::step::spec_english_step(r, c, w, i) is Ok,
    ensures
        spec_skips_known(crate::step::spec_english_step(r, c, w, i)->Ok_0, w, i + 1),
{
    let stats = crate::step::spec_word_stats(w);
    let r2 = crate::step::spec_english_step(r, c, w, i)->Ok_0;
    lemma_letter_group_is_letters(true, stats.all_upper, w, i);
    lemma_letter_group_is_letters(false, stats.all_upper, w, i);
    assert forall|j: int| i + 1 <= j < i + 1 + r2.skip && j < w.len() implies spec_classify(
        #[trigger] w[j],
    ) is Ok by {
        assert(crate::utils::is_ascii_alphabetic(w[j]));
    }
}

proof fn lemma_number_skips_known(r: Run, c: char, w: Seq<char>, i: int)
    requires
        0 <= i < w.len(),
        r.skip == 0,
        crate::step::spec_number_step(r, c, w, i) is Ok,
    ensures
        spec_skips_known(crate::step::spec_number_step(r, c, w, i)->Ok_0, w, i + 1),
{
    let r2 = crate::step::spec_number_step(r, c, w, i)->Ok_0;
    if r2.skip > 0 {
        let found = crate::fraction::regex_captures(
            spec_fraction_pattern(),
            w.subrange(i, w.len() as int),
        );
        let whole = found->0[0]->0;
        let den = found->0[2]->0;
        assert(whole[1] == '/' && whole[2] == den[0] && is_ascii_digit(den[0]));
        assert(w.subrange(i, i + 3)[1] == w[i + 1]);
        assert(w.subrange(i, i + 3)[2] == w[i + 2]);
        assert(spec_classify(w[i + 1]) is Ok);
        assert(spec_classify(w[i + 2]) is Ok);
        assert forall|j: int| i + 1 <= j < i + 1 + r2.skip && j < w.len() implies spec_classify(
            #[trigger] w[j],
        ) is Ok by {
            assert(j == i + 1 || j == i + 2);
        }
    }
}

proof fn lemma_symbol_skips_known(r: Run, c: char, w: Seq<char>, i: int, rem: Seq<Seq<char>>)
    requires
        0 <= i < w.len(),
        c == w[i],
        r.skip == 0,
        crate::step::spec_symbol_step(r, c, w, i, rem) is Ok,
    ensures
        spec_skips_known(crate::step::spec_symbol_step(r, c, w, i, rem)->Ok_0, w, i + 1),
{
    let r2 = crate::step::spec_symbol_step(r, c, w, i, rem)->Ok_0;
    lemma_placeholders_between(w, i);
    lemma_placeholders_between(w, i + 1);
    assert(spec_classify('□') is Ok);
    assert forall|j: int| i + 1 <= j < i + 1 + r2.skip && j < w.len() implies spec_classify(
        #[trigger] w[j],
    ) is Ok by {
        assert(w[j] == '□');
    }
}

/// What a step takes with it has a class.
proof fn lemma_step_skips_known(r: Run, w: Seq<char>, i: int, rem: Seq<Seq<char>>)
    requires
        0 <= i < w.len(),
        spec_skips_known(r, w, i),
        spec_step(r, w, i, rem) is Ok,
    ensures
        spec_skips_known(spec_step(r, w, i, rem)->Ok_0, w, i + 1),
        r.skip == 0 ==> spec_classify(w[i]) is Ok,
{
    let r2 = spec_step(r, w, i, rem)->Ok_0;
    if r.skip > 0 {
        assert forall|j: int| i + 1 <= j < i + 1 + r2.skip && j < w.len() implies spec_classify(
            #[trigger] w[j],
        ) is Ok by {
            assert(i <= j < i + r.skip);
        }
    } else {
        let c = w[i];
        let class = spec_classify(c)->Ok_0;
        let at = spec_arbitrate(spec_open_pending(r, c, w, i, rem), class, w, i, rem);
        assert(at.skip == 0);
        match class {
            CharType::English(_) => {
                lemma_english_skips_known(at, c, w, i);
            },
            CharType::Number(_) => {
                lemma_number_skips_known(at, c, w, i);
            },
            CharType::Symbol(_) => {
                lemma_symbol_skips_known(at, c, w, i, rem);
            },
            CharType::Korean(_) => {
                assert(r2.skip == 0);
            },
            CharType::KoreanPart(_) => {
                assert(r2.skip == 0);
            },
            CharType::Space(_) => {
                assert(r2.skip == 0);
            },
            CharType::MathSymbol(_) => {
                assert(r2.skip == 0);
            },
            CharType::Fraction(_) => {
                assert(r2.skip == 0);
            },
        }
    }
}

/// A walk that comes upon a character without a class fails.
proof fn lemma_stranger_stops_walk(r: Run, w: Seq<char>, i: int, rem: Seq<Seq<char>>, k: int)
    requires
        0 <= i <= k < w.len(),
        spec_classify(w[k]) is Err,
        spec_skips_known(r, w, i),
    ensures
        spec_walk(r, w, i, rem) is Err,
    decreases k - i,
{
    if spec_step(r, w, i, rem) is Ok {
        lemma_step_skips_known(r, w, i, rem);
        if i == k {
            assert(r.skip == 0) by {
                if r.skip > 0 {
                    assert(spec_classify(w[i]) is Ok);
                }
            }
        } else {
            lemma_stranger_stops_walk(spec_step(r, w, i, rem)->Ok_0, w, i + 1, rem, k);
        }
    }
}

/// Whether the word is walked through character by character: it is no
/// fraction between dollar signs and opens with no abbreviated word.
pub open spec fn spec_is_walked(word: Seq<char>) -> bool {
    spec_latex_cells(spec_normalize(word)) is None && spec_split_word_shortcut(
        spec_normalize(word),
    ) is None
}

/// Whether a character of the word has no class.
pub open spec fn spec_has_unknown(word: Seq<char>) -> bool {
    exists|k: int| 0 <= k < word.len() && spec_classify(#[trigger] word[k]) is Err
}

/// A word that is walked through and holds a character without a class
/// fails, whatever the encoder has seen and whatever is around the word.
pub proof fn lemma_word_with_stranger_fails(
    p: Progress,
    word: Seq<char>,
    prev: Seq<char>,
    rem: Seq<Seq<char>>,
)
    requires
        spec_is_walked(word),
        spec_has_unknown(word),
    ensures
        spec_encode_word(p, 0, word, prev, rem) is Err,
{
    let w = spec_normalize(word);
    lemma_short_form_keeps(word);
    let k = choose|k: int| 0 <= k < word.len() && spec_classify(#[trigger] word[k]) is Err;
    assert(word.contains(word[k]));
    assert(w.contains(word[k]));
    let m = choose|m: int| 0 <= m < w.len() && w[m] == word[k];
    let start = spec_word_start(p, 0, w, prev, rem);
    assert(start.skip == 0);
    lemma_stranger_stops_walk(start, w, 0, rem, m);
}

/// A list of words fails where one of its words is walked through and
/// holds a character without a class.
pub proof fn lemma_words_with_stranger_fail(
    p: Progress,
    prev: Seq<char>,
    ws: Seq<Seq<char>>,
    k: int,
)
    requires
        0 <= k < ws.len(),
        spec_is_walked(ws[k]),
        spec_has_unknown(ws[k]),
    ensures
        spec_encode_words(p, prev, ws) is Err,
    decreases k,
{
    let first = spec_encode_word(p, 0, ws[0], prev, ws.skip(1));
    if k == 0 {
        lemma_word_with_stranger_fails(p, ws[0], prev, ws.skip(1));
    } else if first is Ok {
        assert(ws.skip(1)[k - 1] == ws[k]);
        lemma_words_with_stranger_fail(first->Ok_0.0, ws[0], ws.skip(1), k - 1);
    }
}

/// A text fails where one of its words is walked through and holds a
/// character without a class.
pub proof fn lemma_text_with_stranger_fails(text: Seq<char>, k: int)
    requires
        0 <= k < spec_words(text).len(),
        spec_is_walked(spec_words(text)[k]),
        spec_has_unknown(spec_words(text)[k]),
    ensures
        spec_encode(text) is Err,
{
    let p = Progress {
        state: crate::encoder::spec_fresh(crate::word_stats::spec_has_korean(text)),
        out: Seq::empty(),
    };
    lemma_words_with_stranger_fail(p, Seq::empty(), spec_words(text), k);
}

} // verus!
