//! Every cell that the encoder writes is a six-dot cell or a line break.

use vstd::prelude::*;
use crate::char_struct::KoreanChar;
use crate::english::spec_encode_english;
use crate::fraction::{
    spec_digit_cells, spec_encode_fraction, spec_encode_fraction_in_context,
    spec_encode_mixed_fraction, spec_parse_unicode_fraction,
};
use crate::jauem::{spec_encode_choseong, spec_encode_jongseong};
use crate::korean_char::{spec_encode_korean_char, spec_final_cells, spec_rime_cells};
use crate::korean_part::spec_encode_korean_part;
use crate::math_symbol_shortcut::spec_encode_char_math_symbol_shortcut;
use crate::moeum::spec_encode_jungsong;
use crate::number::spec_encode_number;
use crate::rule_en::{spec_rule_en_10_4, spec_rule_en_10_6};
use crate::symbol_shortcut::{
    spec_encode_char_symbol_shortcut, spec_encode_english_char_symbol_shortcut,
};
use crate::char_struct::{spec_classify, CharType};
use crate::encoder::{spec_encode, spec_finish};
use crate::state::Run;
use crate::step::{
    spec_arbitrate, spec_dispatch, spec_english_step, spec_fraction_step, spec_full_form_cells,
    spec_korean_step, spec_math_step, spec_number_step, spec_open_form_cells, spec_open_pending,
    spec_part_step, spec_placeholder_cells, spec_plain_symbol, spec_step, spec_syllable_cells,
    spec_symbol_step, spec_walk,
};
use crate::text::{spec_normalize, spec_words};
use crate::unicode::NEWLINE;
use crate::word::{
    lemma_normalize_len, lemma_words_total, spec_encode_text, spec_encode_word,
    spec_encode_words, spec_latex_cells, spec_total_len, spec_word_start, spec_word_tail,
    Progress,
};
use crate::word_shortcut::spec_split_word_shortcut;

verus! {

/// A cell of six dots, or the line break.
pub open spec fn spec_is_cell(b: u8) -> bool {
    b < 64 || b == NEWLINE
}

/// Whether every byte is a cell.
pub open spec fn spec_valid_cells(s: Seq<u8>) -> bool {
    forall|k: int| 0 <= k < s.len() ==> spec_is_cell(#[trigger] s[k])
}

/// Cells after cells are cells.
pub proof fn lemma_valid_sum(a: Seq<u8>, b: Seq<u8>)
    requires
        spec_valid_cells(a),
        spec_valid_cells(b),
    ensures
        spec_valid_cells(a + b),
{
    assert forall|k: int| 0 <= k < (a + b).len() implies spec_is_cell(#[trigger] (a + b)[k]) by {
        if k < a.len() {
            assert((a + b)[k] == a[k]);
        } else {
            assert((a + b)[k] == b[k - a.len()]);
        }
    }
}

/// The cell of an initial is a six-dot cell.
pub proof fn lemma_choseong_valid(c: char)
    ensures
        spec_encode_choseong(c) matches Some(b) ==> b < 64,
{
}

/// The cells of a final are six-dot cells.
pub proof fn lemma_jongseong_valid(c: char)
    ensures
        spec_encode_jongseong(c) matches Some(cells) ==> spec_valid_cells(cells),
{
}

/// The cells of a medial are six-dot cells.
pub proof fn lemma_jungsong_valid(c: char)
    ensures
        spec_encode_jungsong(c) matches Some(cells) ==> spec_valid_cells(cells),
{
}

/// The cells of a letter on its own are six-dot cells.
pub proof fn lemma_korean_part_valid(c: char)
    ensures
        spec_encode_korean_part(c) matches Some(cells) ==> spec_valid_cells(cells),
{
}

/// The cell of a Latin letter is a six-dot cell.
pub proof fn lemma_english_valid(c: char)
    ensures
        spec_encode_english(c) matches Some(b) ==> b < 64,
{
}

/// The cell of a digit is a six-dot cell.
pub proof fn lemma_number_valid(c: char)
    ensures
        spec_encode_number(c) matches Some(b) ==> b < 64,
{
}

/// The cells of a punctuation mark are six-dot cells, in both forms.
pub proof fn lemma_symbol_valid(c: char)
    ensures
        spec_encode_char_symbol_shortcut(c) matches Some(cells) ==> spec_valid_cells(cells),
        spec_encode_english_char_symbol_shortcut(c) matches Some(cells) ==> spec_valid_cells(cells),
{
}

/// The cells of an arithmetic sign are six-dot cells.
pub proof fn lemma_math_symbol_valid(c: char)
    ensures
        spec_encode_char_math_symbol_shortcut(c) matches Some(cells) ==> spec_valid_cells(cells),
{
}

proof fn lemma_found_group_valid(table: Seq<(Seq<char>, u8)>, w: Seq<char>, i: int, from: int)
    requires
        0 <= from,
        forall|k: int| 0 <= k < table.len() ==> (#[trigger] table[k]).1 < 64,
    ensures
        crate::rule_en::spec_find_group(table, w, i, from) matches Some((b, _)) ==> b < 64,
    decreases table.len() - from,
{
    if from < table.len() {
        assert(table[from].1 < 64);
        lemma_found_group_valid(table, w, i, from + 1);
    }
}

/// The cell of a group of letters is a six-dot cell.
pub proof fn lemma_letter_group_valid(w: Seq<char>, i: int)
    ensures
        spec_rule_en_10_4(w, i) matches Some((b, _)) ==> b < 64,
        spec_rule_en_10_6(w, i) matches Some((b, _)) ==> b < 64,
{
    reveal(spec_rule_en_10_4);
    reveal(spec_rule_en_10_6);
    lemma_found_group_valid(crate::rule_en::spec_groups_anywhere(), w, i, 0);
    lemma_found_group_valid(crate::rule_en::spec_groups_at_start(), w, i, 0);
}

/// The cells of an abbreviated word are six-dot cells.
pub proof fn lemma_word_shortcut_valid(w: Seq<char>)
    ensures
        spec_split_word_shortcut(w) matches Some((cells, _)) ==> spec_valid_cells(cells),
{
    crate::word_shortcut::lemma_shortcut_shape(w);
}


/// The cells of a run of digits are six-dot cells.
pub proof fn lemma_digit_cells_valid(s: Seq<char>)
    ensures
        spec_digit_cells(s) matches Ok(cells) ==> spec_valid_cells(cells),
    decreases s.len(),
{
    if s.len() > 0 {
        lemma_digit_cells_valid(s.drop_last());
        lemma_number_valid(s.last());
    }
}

/// The cells of a fraction are six-dot cells, in each of its three forms.
pub proof fn lemma_fractions_valid(whole: Seq<char>, num: Seq<char>, den: Seq<char>)
    ensures
        spec_encode_fraction(num, den) matches Ok(cells) ==> spec_valid_cells(cells),
        spec_encode_fraction_in_context(num, den) matches Ok(cells) ==> spec_valid_cells(cells),
        spec_encode_mixed_fraction(whole, num, den) matches Ok(cells) ==> spec_valid_cells(cells),
{
    lemma_digit_cells_valid(whole);
    lemma_digit_cells_valid(num);
    lemma_digit_cells_valid(den);
}

proof fn lemma_final_cells_valid(jong: Option<char>)
    ensures
        spec_final_cells(jong) matches Ok(cells) ==> spec_valid_cells(cells),
{
    if jong is Some {
        lemma_jongseong_valid(jong->0);
    }
}

proof fn lemma_rime_valid(cho: char, jung: char, jong: Option<char>)
    ensures
        spec_rime_cells(cho, jung, jong) matches Ok(cells) ==> spec_valid_cells(cells),
{
    lemma_jungsong_valid(jung);
    lemma_final_cells_valid(jong);
    if jong is Some {
        lemma_final_cells_valid(crate::korean_char::spec_split_jongseong(jong->0).1);
    }
}

/// The cells of a syllable are cells.
pub proof fn lemma_syllable_valid(k: KoreanChar, c: char, w: Seq<char>, i: int)
    ensures
        spec_encode_korean_char(k) matches Ok(cells) ==> spec_valid_cells(cells),
        spec_full_form_cells(k) matches Ok(cells) ==> spec_valid_cells(cells),
        spec_open_form_cells(k) matches Ok(cells) ==> spec_valid_cells(cells),
        spec_syllable_cells(k, c, w, i) matches Ok(cells) ==> spec_valid_cells(cells),
{
    lemma_jungsong_valid(k.jung);
    lemma_final_cells_valid(k.jong);
    lemma_choseong_valid(k.cho);
    if crate::split::spec_split_korean_jauem(k.cho) is Some {
        let parts = crate::split::spec_split_korean_jauem(k.cho)->Some_0;
        let cho = parts.0;
        lemma_choseong_valid(cho);
        lemma_rime_valid(cho, k.jung, k.jong);
    }
}

/// A step of a run whose cells are cells leaves cells.
pub open spec fn spec_stays_valid(r: Run, r2: Run) -> bool {
    spec_valid_cells(r.out) ==> spec_valid_cells(r2.out)
}

proof fn lemma_korean_step_valid(r: Run, k: KoreanChar, c: char, w: Seq<char>, i: int)
    requires
        spec_korean_step(r, k, c, w, i) is Ok,
    ensures
        spec_stays_valid(r, spec_korean_step(r, k, c, w, i)->Ok_0),
{
    lemma_syllable_valid(k, c, w, i);
}

proof fn lemma_part_step_valid(r: Run, c: char, w: Seq<char>, i: int)
    requires
        spec_part_step(r, c, w, i) is Ok,
    ensures
        spec_stays_valid(r, spec_part_step(r, c, w, i)->Ok_0),
{
    lemma_jongseong_valid(c);
    lemma_korean_part_valid(c);
}

proof fn lemma_english_step_valid(r: Run, c: char, w: Seq<char>, i: int)
    requires
        spec_english_step(r, c, w, i) is Ok,
    ensures
        spec_stays_valid(r, spec_english_step(r, c, w, i)->Ok_0),
{
    lemma_english_valid(c);
    lemma_letter_group_valid(w, i);
}

proof fn lemma_number_step_valid(r: Run, c: char, w: Seq<char>, i: int)
    requires
        spec_number_step(r, c, w, i) is Ok,
    ensures
        spec_stays_valid(r, spec_number_step(r, c, w, i)->Ok_0),
{
    lemma_number_valid(c);
    if !r.is_number {
        let found = crate::fraction::spec_find_inline_fraction(w, i);
        if found is Ok && found->Ok_0 is Some {
            let (num, den, _) = found->Ok_0->0;
            lemma_fractions_valid(Seq::empty(), num, den);
            let cells = spec_encode_fraction_in_context(num, den)->Ok_0;
            if spec_valid_cells(r.out) {
                lemma_valid_sum(r.out, cells);
            }
        }
    }
}

proof fn lemma_fraction_step_valid(r: Run, c: char)
    requires
        spec_fraction_step(r, c) is Ok,
    ensures
        spec_stays_valid(r, spec_fraction_step(r, c)->Ok_0),
{
    if spec_parse_unicode_fraction(c) is Some {
        let (num, den) = spec_parse_unicode_fraction(c)->0;
        lemma_fractions_valid(Seq::empty(), num, den);
        if spec_valid_cells(r.out) {
            lemma_valid_sum(r.out, spec_encode_fraction(num, den)->Ok_0);
        }
    }
}

proof fn lemma_symbol_step_valid(r: Run, c: char, w: Seq<char>, i: int, rem: Seq<Seq<char>>)
    requires
        spec_symbol_step(r, c, w, i, rem) is Ok,
    ensures
        spec_stays_valid(r, spec_symbol_step(r, c, w, i, rem)->Ok_0),
{
    lemma_symbol_valid(c);
    let n = crate::step::spec_placeholder_end(w, i) - i;
    assert(spec_valid_cells(spec_placeholder_cells(n)));
    if spec_valid_cells(r.out) && spec_plain_symbol(r.is_number, r.skip, c, w, i, rem) is Ok {
        lemma_valid_sum(r.out, spec_plain_symbol(r.is_number, r.skip, c, w, i, rem)->Ok_0.0);
    }
    if spec_valid_cells(r.out) && spec_encode_english_char_symbol_shortcut(c) is Some {
        lemma_valid_sum(r.out, spec_encode_english_char_symbol_shortcut(c)->0);
    }
}

proof fn lemma_math_step_valid(r: Run, c: char, w: Seq<char>, i: int)
    requires
        spec_math_step(r, c, w, i) is Ok,
    ensures
        spec_stays_valid(r, spec_math_step(r, c, w, i)->Ok_0),
{
    lemma_math_symbol_valid(c);
}

proof fn lemma_dispatch_valid(
    r: Run,
    class: CharType,
    c: char,
    w: Seq<char>,
    i: int,
    rem: Seq<Seq<char>>,
)
    requires
        spec_dispatch(r, class, c, w, i, rem) is Ok,
    ensures
        spec_stays_valid(r, spec_dispatch(r, class, c, w, i, rem)->Ok_0),
{
    match class {
        CharType::Korean(k) => lemma_korean_step_valid(r, k, c, w, i),
        CharType::KoreanPart(_) => lemma_part_step_valid(r, c, w, i),
        CharType::English(_) => lemma_english_step_valid(r, c, w, i),
        CharType::Number(_) => lemma_number_step_valid(r, c, w, i),
        CharType::Symbol(_) => lemma_symbol_step_valid(r, c, w, i, rem),
        CharType::Space(_) => {},
        CharType::MathSymbol(_) => lemma_math_step_valid(r, c, w, i),
        CharType::Fraction(_) => lemma_fraction_step_valid(r, c),
    }
}

/// A step writes cells.
pub proof fn lemma_step_valid(r: Run, w: Seq<char>, i: int, rem: Seq<Seq<char>>)
    requires
        0 <= i < w.len(),
        spec_step(r, w, i, rem) is Ok,
    ensures
        spec_stays_valid(r, spec_step(r, w, i, rem)->Ok_0),
{
    if r.skip <= 0 {
        let c = w[i];
        let class = spec_classify(c)->Ok_0;
        let r1 = spec_open_pending(r, c, w, i, rem);
        let r2 = spec_arbitrate(r1, class, w, i, rem);
        assert(spec_stays_valid(r, r1));
        assert(spec_stays_valid(r1, r2));
        lemma_dispatch_valid(r2, class, c, w, i, rem);
    }
}

/// A walk writes cells.
pub proof fn lemma_walk_valid(r: Run, w: Seq<char>, i: int, rem: Seq<Seq<char>>)
    requires
        0 <= i,
        spec_walk(r, w, i, rem) is Ok,
    ensures
        spec_stays_valid(r, spec_walk(r, w, i, rem)->Ok_0),
    decreases w.len() - i,
{
    if i < w.len() {
        lemma_step_valid(r, w, i, rem);
        lemma_walk_valid(spec_step(r, w, i, rem)->Ok_0, w, i + 1, rem);
    }
}

/// A word writes cells.
pub proof fn lemma_word_valid(
    p: Progress,
    skip: int,
    word: Seq<char>,
    prev: Seq<char>,
    rem: Seq<Seq<char>>,
)
    requires
        spec_encode_word(p, skip, word, prev, rem) is Ok,
        spec_valid_cells(p.out),
    ensures
        spec_valid_cells(spec_encode_word(p, skip, word, prev, rem)->Ok_0.0.out),
    decreases word.len(), 0int,
{
    let w = spec_normalize(word);
    match spec_latex_cells(w) {
        Some(cells) => {
            let (whole, num, den) = crate::fraction::spec_parse_latex_fraction(w)->0;
            lemma_fractions_valid(
                if whole is Some {
                    whole->0
                } else {
                    Seq::empty()
                },
                num,
                den,
            );
            lemma_valid_sum(p.out, cells->Ok_0);
        },
        None => {
            match crate::word_shortcut::spec_split_word_shortcut(w) {
                Some((code, n)) => {
                    lemma_word_shortcut_valid(w);
                    lemma_valid_sum(p.out, code);
                    let pa = Progress { out: p.out + code, ..p };
                    let rest = w.subrange(n as int, w.len() as int);
                    if rest.len() > 0 {
                        crate::word_shortcut::lemma_shortcut_shape(w);
                        lemma_normalize_len(word);
                        lemma_words_total(rest, 0);
                        lemma_words_valid(pa, Seq::empty(), spec_words(rest));
                        lemma_tail_valid(
                            spec_encode_words(pa, Seq::empty(), spec_words(rest))->Ok_0,
                            rem,
                        );
                    } else {
                        lemma_tail_valid(pa, rem);
                    }
                },
                None => {
                    let r0 = spec_word_start(p, skip, w, prev, rem);
                    assert(spec_valid_cells(r0.out));
                    lemma_walk_valid(r0, w, 0, rem);
                    let r = spec_walk(r0, w, 0, rem)->Ok_0;
                    lemma_tail_valid(Progress { state: r.state, out: r.out }, rem);
                },
            }
        },
    }
}

proof fn lemma_tail_valid(p: Progress, rem: Seq<Seq<char>>)
    requires
        spec_valid_cells(p.out),
    ensures
        spec_valid_cells(spec_word_tail(p, rem).out),
{
}

/// A list of words writes cells.
pub proof fn lemma_words_valid(p: Progress, prev: Seq<char>, ws: Seq<Seq<char>>)
    requires
        spec_encode_words(p, prev, ws) is Ok,
        spec_valid_cells(p.out),
    ensures
        spec_valid_cells(spec_encode_words(p, prev, ws)->Ok_0.out),
    decreases spec_total_len(ws), 1 + ws.len(),
{
    if ws.len() > 0 {
        lemma_word_valid(p, 0, ws[0], prev, ws.skip(1));
        lemma_words_valid(spec_encode_word(p, 0, ws[0], prev, ws.skip(1))->Ok_0.0, ws[0], ws.skip(1));
    }
}

/// What a text adds to cells is cells.
pub proof fn lemma_text_valid(p: Progress, text: Seq<char>)
    requires
        spec_encode_text(p, text) is Ok,
        spec_valid_cells(p.out),
    ensures
        spec_valid_cells(spec_encode_text(p, text)->Ok_0.out),
        spec_valid_cells(spec_finish(spec_encode_text(p, text)->Ok_0).out),
{
    lemma_words_valid(p, Seq::empty(), spec_words(text));
}

/// The cells of a whole text are cells: each is a six-dot cell or the
/// line break.
pub proof fn lemma_encode_valid(text: Seq<char>)
    requires
        spec_encode(text) is Ok,
    ensures
        spec_valid_cells(spec_encode(text)->Ok_0),
{
    let p = Progress {
        state: crate::encoder::spec_fresh(crate::word_stats::spec_has_korean(text)),
        out: Seq::empty(),
    };
    lemma_text_valid(p, text);
}

} // verus!
