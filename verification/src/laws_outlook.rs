//! What a word shows to the words around it, and that nothing else of it
//! matters to them.

use vstd::prelude::*;
use crate::char_struct::spec_classify;
use crate::english_logic::spec_next_char;
use crate::state::Run;
use crate::step::{
    spec_arbitrate, spec_dispatch, spec_open_pending, spec_step, spec_symbol_step, spec_walk,
};
use crate::text::spec_normalize;
use crate::word::{spec_encode_word, spec_word_start, spec_word_tail, Progress};
use crate::word_stats::{
    spec_all_letters, spec_first_letter, spec_is_single_letter_word,
};

verus! {

/// Whether two words look alike from another word: both or neither are
/// all letters, both or neither are one letter, they have the same first
/// letter and the same first character.
pub open spec fn spec_same_outlook(x: Seq<char>, y: Seq<char>) -> bool {
    &&& spec_all_letters(x) == spec_all_letters(y)
    &&& (x.len() > 0) == (y.len() > 0)
    &&& x.len() > 0 ==> x[0] == y[0]
    &&& spec_is_single_letter_word(x) == spec_is_single_letter_word(y)
    &&& spec_first_letter(x) == spec_first_letter(y)
}

/// Whether two lists of words look alike, word by word.
pub open spec fn spec_same_outlooks(xs: Seq<Seq<char>>, ys: Seq<Seq<char>>) -> bool {
    &&& xs.len() == ys.len()
    &&& forall|k: int| 0 <= k < xs.len() ==> spec_same_outlook(#[trigger] xs[k], ys[k])
}

proof fn lemma_next_char_alike(w: Seq<char>, i: int, xs: Seq<Seq<char>>, ys: Seq<Seq<char>>)
    requires
        spec_same_outlooks(xs, ys),
    ensures
        spec_next_char(w, i, xs) == spec_next_char(w, i, ys),
{
    if xs.len() > 0 {
        assert(spec_same_outlook(xs[0], ys[0]));
    }
}

proof fn lemma_step_alike(r: Run, w: Seq<char>, i: int, xs: Seq<Seq<char>>, ys: Seq<Seq<char>>)
    requires
        0 <= i < w.len(),
        spec_same_outlooks(xs, ys),
    ensures
        spec_step(r, w, i, xs) == spec_step(r, w, i, ys),
{
    lemma_next_char_alike(w, i, xs, ys);
    if r.skip <= 0 {
        let c = w[i];
        let a = spec_open_pending(r, c, w, i, xs);
        assert(a == spec_open_pending(r, c, w, i, ys));
        if spec_classify(c) is Ok {
            let class = spec_classify(c)->Ok_0;
            let b = spec_arbitrate(a, class, w, i, xs);
            assert(b == spec_arbitrate(a, class, w, i, ys));
            assert(spec_symbol_step(b, c, w, i, xs) == spec_symbol_step(b, c, w, i, ys));
            assert(spec_dispatch(b, class, c, w, i, xs) == spec_dispatch(b, class, c, w, i, ys));
        }
    }
}

proof fn lemma_walk_alike(r: Run, w: Seq<char>, i: int, xs: Seq<Seq<char>>, ys: Seq<Seq<char>>)
    requires
        0 <= i,
        spec_same_outlooks(xs, ys),
    ensures
        spec_walk(r, w, i, xs) == spec_walk(r, w, i, ys),
    decreases w.len() - i,
{
    if i < w.len() {
        lemma_step_alike(r, w, i, xs, ys);
        if spec_step(r, w, i, xs) is Ok {
            lemma_walk_alike(spec_step(r, w, i, xs)->Ok_0, w, i + 1, xs, ys);
        }
    }
}

proof fn lemma_tail_alike(p: Progress, xs: Seq<Seq<char>>, ys: Seq<Seq<char>>)
    requires
        spec_same_outlooks(xs, ys),
    ensures
        spec_word_tail(p, xs) == spec_word_tail(p, ys),
{
    if xs.len() > 0 {
        assert(spec_same_outlook(xs[0], ys[0]));
    }
}

proof fn lemma_start_alike(
    p: Progress,
    skip: int,
    w: Seq<char>,
    prev: Seq<char>,
    other: Seq<char>,
    xs: Seq<Seq<char>>,
    ys: Seq<Seq<char>>,
)
    requires
        spec_all_letters(prev) == spec_all_letters(other),
        spec_same_outlooks(xs, ys),
    ensures
        spec_word_start(p, skip, w, prev, xs) == spec_word_start(p, skip, w, other, ys),
{
    if xs.len() >= 2 {
        assert(spec_same_outlook(xs[0], ys[0]));
        assert(spec_same_outlook(xs[1], ys[1]));
    }
}

/// A word is encoded alike between words that look alike.
pub proof fn lemma_word_sees_outlook(
    p: Progress,
    skip: int,
    word: Seq<char>,
    prev: Seq<char>,
    other: Seq<char>,
    xs: Seq<Seq<char>>,
    ys: Seq<Seq<char>>,
)
    requires
        spec_all_letters(prev) == spec_all_letters(other),
        spec_same_outlooks(xs, ys),
    ensures
        spec_encode_word(p, skip, word, prev, xs) == spec_encode_word(p, skip, word, other, ys),
{
    let w = spec_normalize(word);
    lemma_start_alike(p, skip, w, prev, other, xs, ys);
    lemma_walk_alike(spec_word_start(p, skip, w, prev, xs), w, 0, xs, ys);
    assert forall|q: Progress| spec_word_tail(q, xs) == spec_word_tail(q, ys) by {
        lemma_tail_alike(q, xs, ys);
    }
}

} // verus!
