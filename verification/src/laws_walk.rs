//! The encoder only appends: what is written stays.

use vstd::prelude::*;
use crate::state::Run;
use crate::char_struct::{spec_classify, CharType, KoreanChar};
use crate::step::{
    spec_arbitrate, spec_dispatch, spec_english_step, spec_fraction_step, spec_korean_step,
    spec_math_step, spec_number_step, spec_open_pending, spec_part_step, spec_space_step,
    spec_step, spec_symbol_step, spec_walk,
};
use crate::text::{spec_normalize, spec_words};
use crate::word::{
    lemma_normalize_len, lemma_words_total, spec_encode_text, spec_encode_word, spec_encode_words,
    spec_latex_cells, spec_total_len, spec_word_start, spec_word_tail, Progress,
};
use crate::word_shortcut::spec_split_word_shortcut;

verus! {

/// Whether the state is sound: the continuation sign is owed only outside
/// a Latin run.
pub open spec fn spec_sound(s: crate::state::EncoderState) -> bool {
    s.needs_english_continuation ==> !s.is_english
}

/// What a step leaves as it was: the cells written before it, whether
/// the encoder marks Latin runs, is inside a phrase in capitals and has
/// seen a word, and that its state is sound.
pub open spec fn spec_step_keeps(r: Run, r2: Run) -> bool {
    &&& spec_sound(r.state) ==> spec_sound(r2.state)
    &&& r.out.is_prefix_of(r2.out)
    &&& r2.state.english_indicator == r.state.english_indicator
    &&& r2.state.triple_big_english == r.state.triple_big_english
    &&& r2.state.has_processed_word == r.state.has_processed_word
}

/// A sequence opens itself with something added.
pub proof fn lemma_prefix_of_sum(a: Seq<u8>, t: Seq<u8>)
    ensures
        a.is_prefix_of(a + t),
{
    assert((a + t).subrange(0, a.len() as int) =~= a);
}

/// What opens a sequence opens every sequence that the sequence opens.
pub proof fn lemma_prefix_chain(a: Seq<u8>, b: Seq<u8>, c: Seq<u8>)
    requires
        a.is_prefix_of(b),
        b.is_prefix_of(c),
    ensures
        a.is_prefix_of(c),
{
    assert(c.subrange(0, a.len() as int) =~= c.subrange(0, b.len() as int).subrange(
        0,
        a.len() as int,
    ));
}

proof fn lemma_keeps_chain(a: Run, b: Run, c: Run)
    requires
        spec_step_keeps(a, b),
        spec_step_keeps(b, c),
    ensures
        spec_step_keeps(a, c),
{
    lemma_prefix_chain(a.out, b.out, c.out);
}

proof fn lemma_open_pending_keeps(r: Run, c: char, w: Seq<char>, i: int, rem: Seq<Seq<char>>)
    ensures
        spec_step_keeps(r, spec_open_pending(r, c, w, i, rem)),
{
    lemma_prefix_of_sum(r.out, Seq::empty());
    assert(r.out + Seq::<u8>::empty() =~= r.out);
    lemma_prefix_of_sum(r.out, seq![crate::state::spec_enter_cell(r.state)]);
    assert(r.out.push(crate::state::spec_enter_cell(r.state)) =~= r.out + seq![
        crate::state::spec_enter_cell(r.state),
    ]);
}

proof fn lemma_arbitrate_keeps(r: Run, class: CharType, w: Seq<char>, i: int, rem: Seq<Seq<char>>)
    ensures
        spec_step_keeps(r, spec_arbitrate(r, class, w, i, rem)),
{
    lemma_prefix_of_sum(r.out, Seq::empty());
    assert(r.out + Seq::<u8>::empty() =~= r.out);
    lemma_prefix_of_sum(r.out, seq![crate::state::ENGLISH_CLOSE]);
}

proof fn lemma_korean_keeps(r: Run, k: KoreanChar, c: char, w: Seq<char>, i: int)
    requires
        spec_korean_step(r, k, c, w, i) is Ok,
    ensures
        spec_step_keeps(r, spec_korean_step(r, k, c, w, i)->Ok_0),
{
    let r2 = spec_korean_step(r, k, c, w, i)->Ok_0;
    assert(r2.out.subrange(0, r.out.len() as int) =~= r.out);
}

proof fn lemma_part_keeps(r: Run, c: char, w: Seq<char>, i: int)
    requires
        spec_part_step(r, c, w, i) is Ok,
    ensures
        spec_step_keeps(r, spec_part_step(r, c, w, i)->Ok_0),
{
    let r2 = spec_part_step(r, c, w, i)->Ok_0;
    assert(r2.out.subrange(0, r.out.len() as int) =~= r.out);
}

proof fn lemma_english_keeps(r: Run, c: char, w: Seq<char>, i: int)
    requires
        spec_english_step(r, c, w, i) is Ok,
    ensures
        spec_step_keeps(r, spec_english_step(r, c, w, i)->Ok_0),
{
    let r2 = spec_english_step(r, c, w, i)->Ok_0;
    assert(r2.out.subrange(0, r.out.len() as int) =~= r.out);
}

proof fn lemma_number_keeps(r: Run, c: char, w: Seq<char>, i: int)
    requires
        spec_number_step(r, c, w, i) is Ok,
    ensures
        spec_step_keeps(r, spec_number_step(r, c, w, i)->Ok_0),
{
    let r2 = spec_number_step(r, c, w, i)->Ok_0;
    assert(r2.out.subrange(0, r.out.len() as int) =~= r.out);
}

proof fn lemma_symbol_keeps(r: Run, c: char, w: Seq<char>, i: int, rem: Seq<Seq<char>>)
    requires
        spec_symbol_step(r, c, w, i, rem) is Ok,
    ensures
        spec_step_keeps(r, spec_symbol_step(r, c, w, i, rem)->Ok_0),
{
    let r2 = spec_symbol_step(r, c, w, i, rem)->Ok_0;
    assert(r2.out.subrange(0, r.out.len() as int) =~= r.out);
}

proof fn lemma_math_keeps(r: Run, c: char, w: Seq<char>, i: int)
    requires
        spec_math_step(r, c, w, i) is Ok,
    ensures
        spec_step_keeps(r, spec_math_step(r, c, w, i)->Ok_0),
{
    let r2 = spec_math_step(r, c, w, i)->Ok_0;
    assert(r2.out.subrange(0, r.out.len() as int) =~= r.out);
}

proof fn lemma_fraction_keeps(r: Run, c: char)
    requires
        spec_fraction_step(r, c) is Ok,
    ensures
        spec_step_keeps(r, spec_fraction_step(r, c)->Ok_0),
{
    let r2 = spec_fraction_step(r, c)->Ok_0;
    assert(r2.out.subrange(0, r.out.len() as int) =~= r.out);
}

proof fn lemma_space_keeps(r: Run, c: char)
    ensures
        spec_step_keeps(r, spec_space_step(r, c)),
{
    let r2 = spec_space_step(r, c);
    assert(r2.out.subrange(0, r.out.len() as int) =~= r.out);
}

proof fn lemma_dispatch_keeps(
    r: Run,
    class: CharType,
    c: char,
    w: Seq<char>,
    i: int,
    rem: Seq<Seq<char>>,
)
    requires
        spec_dispatch(r, class, c, w, i, rem) is Ok,
    ensures
        spec_step_keeps(r, spec_dispatch(r, class, c, w, i, rem)->Ok_0),
{
    match class {
        CharType::Korean(k) => lemma_korean_keeps(r, k, c, w, i),
        CharType::KoreanPart(_) => lemma_part_keeps(r, c, w, i),
        CharType::English(_) => lemma_english_keeps(r, c, w, i),
        CharType::Number(_) => lemma_number_keeps(r, c, w, i),
        CharType::Symbol(_) => lemma_symbol_keeps(r, c, w, i, rem),
        CharType::Space(_) => lemma_space_keeps(r, c),
        CharType::MathSymbol(_) => lemma_math_keeps(r, c, w, i),
        CharType::Fraction(_) => lemma_fraction_keeps(r, c),
    }
}

/// A step keeps what was written before it.
pub proof fn lemma_step_keeps(r: Run, w: Seq<char>, i: int, rem: Seq<Seq<char>>)
    requires
        0 <= i < w.len(),
        spec_step(r, w, i, rem) is Ok,
    ensures
        spec_step_keeps(r, spec_step(r, w, i, rem)->Ok_0),
{
    if r.skip > 0 {
        assert(r.out.subrange(0, r.out.len() as int) =~= r.out);
    } else {
        let c = w[i];
        let class = spec_classify(c)->Ok_0;
        let r1 = spec_open_pending(r, c, w, i, rem);
        let r2 = spec_arbitrate(r1, class, w, i, rem);
        lemma_open_pending_keeps(r, c, w, i, rem);
        lemma_arbitrate_keeps(r1, class, w, i, rem);
        lemma_dispatch_keeps(r2, class, c, w, i, rem);
        lemma_keeps_chain(r, r1, r2);
        lemma_keeps_chain(r, r2, spec_dispatch(r2, class, c, w, i, rem)->Ok_0);
    }
}

/// A walk keeps what was written before it.
pub proof fn lemma_walk_keeps(r: Run, w: Seq<char>, i: int, rem: Seq<Seq<char>>)
    requires
        0 <= i,
        spec_walk(r, w, i, rem) is Ok,
    ensures
        spec_step_keeps(r, spec_walk(r, w, i, rem)->Ok_0),
    decreases w.len() - i,
{
    if i < w.len() {
        let r2 = spec_step(r, w, i, rem)->Ok_0;
        lemma_step_keeps(r, w, i, rem);
        lemma_walk_keeps(r2, w, i + 1, rem);
        lemma_keeps_chain(r, r2, spec_walk(r, w, i, rem)->Ok_0);
    } else {
        assert(r.out.subrange(0, r.out.len() as int) =~= r.out);
    }
}


/// What a word leaves as it was: the cells written before it, whether the
/// encoder marks Latin runs, and that its state is sound.
pub open spec fn spec_word_keeps(p: Progress, q: Progress) -> bool {
    &&& spec_sound(p.state) ==> spec_sound(q.state)
    &&& p.out.is_prefix_of(q.out)
    &&& q.state.english_indicator == p.state.english_indicator
}

proof fn lemma_word_start_keeps(
    p: Progress,
    skip: int,
    w: Seq<char>,
    prev: Seq<char>,
    rem: Seq<Seq<char>>,
)
    ensures
        p.out.is_prefix_of(spec_word_start(p, skip, w, prev, rem).out),
        spec_word_start(p, skip, w, prev, rem).state.english_indicator == p.state.english_indicator,
        spec_sound(p.state) ==> spec_sound(spec_word_start(p, skip, w, prev, rem).state),
{
    let r = spec_word_start(p, skip, w, prev, rem);
    assert(r.out.subrange(0, p.out.len() as int) =~= p.out);
}

proof fn lemma_word_tail_keeps(p: Progress, rem: Seq<Seq<char>>)
    ensures
        spec_word_keeps(p, spec_word_tail(p, rem)),
{
    let q = spec_word_tail(p, rem);
    assert(q.out.subrange(0, p.out.len() as int) =~= p.out);
}

/// A word keeps what was written before it.
pub proof fn lemma_word_keeps(
    p: Progress,
    skip: int,
    word: Seq<char>,
    prev: Seq<char>,
    rem: Seq<Seq<char>>,
)
    requires
        spec_encode_word(p, skip, word, prev, rem) is Ok,
    ensures
        spec_word_keeps(p, spec_encode_word(p, skip, word, prev, rem)->Ok_0.0),
    decreases word.len(), 0int,
{
    let w = spec_normalize(word);
    let q = spec_encode_word(p, skip, word, prev, rem)->Ok_0.0;
    match spec_latex_cells(w) {
        Some(cells) => {
            assert(q.out.subrange(0, p.out.len() as int) =~= p.out);
        },
        None => {
            match spec_split_word_shortcut(w) {
                Some((code, n)) => {
                    let pa = Progress { out: p.out + code, ..p };
                    lemma_prefix_of_sum(p.out, code);
                    let rest = w.subrange(n as int, w.len() as int);
                    if rest.len() > 0 {
                        crate::word_shortcut::lemma_shortcut_shape(w);
                        lemma_normalize_len(word);
                        lemma_words_total(rest, 0);
                        lemma_words_keep(pa, Seq::empty(), spec_words(rest));
                        let pb = spec_encode_words(pa, Seq::empty(), spec_words(rest))->Ok_0;
                        lemma_word_tail_keeps(pb, rem);
                        lemma_prefix_chain(p.out, pa.out, pb.out);
                        lemma_prefix_chain(p.out, pb.out, q.out);
                    } else {
                        lemma_word_tail_keeps(pa, rem);
                        lemma_prefix_chain(p.out, pa.out, q.out);
                    }
                },
                None => {
                    let r0 = spec_word_start(p, skip, w, prev, rem);
                    lemma_word_start_keeps(p, skip, w, prev, rem);
                    lemma_walk_keeps(r0, w, 0, rem);
                    let r = spec_walk(r0, w, 0, rem)->Ok_0;
                    let pb = Progress { state: r.state, out: r.out };
                    lemma_word_tail_keeps(pb, rem);
                    lemma_prefix_chain(p.out, r0.out, r.out);
                    lemma_prefix_chain(p.out, pb.out, q.out);
                },
            }
        },
    }
}

/// A list of words keeps what was written before it.
pub proof fn lemma_words_keep(p: Progress, prev: Seq<char>, ws: Seq<Seq<char>>)
    requires
        spec_encode_words(p, prev, ws) is Ok,
    ensures
        spec_word_keeps(p, spec_encode_words(p, prev, ws)->Ok_0),
    decreases spec_total_len(ws), 1 + ws.len(),
{
    if ws.len() == 0 {
        assert(p.out.subrange(0, p.out.len() as int) =~= p.out);
    } else {
        lemma_word_keeps(p, 0, ws[0], prev, ws.skip(1));
        let pa = spec_encode_word(p, 0, ws[0], prev, ws.skip(1))->Ok_0.0;
        lemma_words_keep(pa, ws[0], ws.skip(1));
        lemma_prefix_chain(p.out, pa.out, spec_encode_words(p, prev, ws)->Ok_0.out);
    }
}

/// A text keeps what was written before it: the encoder only appends.
pub proof fn lemma_text_keeps(p: Progress, text: Seq<char>)
    requires
        spec_encode_text(p, text) is Ok,
    ensures
        spec_word_keeps(p, spec_encode_text(p, text)->Ok_0),
{
    lemma_words_keep(p, Seq::empty(), spec_words(text));
}

} // verus!
