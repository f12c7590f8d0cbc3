//! Capitals: the signs of a word and of a phrase in capitals.

use vstd::prelude::*;
use crate::char_struct::{spec_classify, CharType};
use crate::encoder::spec_finish;
use crate::english::spec_encode_english;
use crate::error::EncodeError;
use crate::laws_walk::{lemma_prefix_chain, lemma_prefix_of_sum, lemma_walk_keeps, spec_step_keeps};
use crate::state::{spec_enter_cell, Run, CAPITAL, PHRASE_END};
use crate::step::{
    spec_arbitrate, spec_english_step, spec_open_pending, spec_step, spec_walk, spec_word_stats,
};
use crate::text::{spec_normalize, spec_shorten_ellipses_from, spec_shorten_stops_from};
use crate::utils::{is_ascii_alphabetic, is_ascii_uppercase};
use crate::word::{
    spec_encode_word, spec_encode_words, spec_latex_cells, spec_word_start, spec_word_tail,
    Progress,
};
use crate::word_shortcut::spec_split_word_shortcut;
use crate::word_stats::{
    spec_all_letters, spec_has_letter, spec_is_all_uppercase, spec_letter_count,
};

verus! {

/// Whether every character is a Latin capital.
pub open spec fn spec_all_capitals(w: Seq<char>) -> bool {
    forall|k: int| 0 <= k < w.len() ==> is_ascii_uppercase(#[trigger] w[k])
}

/// A Latin letter has a cell, and it is not the sign of a capital.
pub proof fn lemma_letter_has_cell(c: char)
    requires
        is_ascii_alphabetic(c),
    ensures
        spec_encode_english(c) is Some,
        spec_encode_english(c)->0 != CAPITAL,
{
    let u = c as u32;
    if u <= 0x5A {
        assert(u == 0x41 || u == 0x42 || u == 0x43 || u == 0x44 || u == 0x45 || u == 0x46 || u
            == 0x47 || u == 0x48 || u == 0x49 || u == 0x4A || u == 0x4B || u == 0x4C || u == 0x4D
            || u == 0x4E || u == 0x4F || u == 0x50 || u == 0x51 || u == 0x52 || u == 0x53 || u
            == 0x54 || u == 0x55 || u == 0x56 || u == 0x57 || u == 0x58 || u == 0x59 || u == 0x5A);
    } else {
        assert(u == 0x61 || u == 0x62 || u == 0x63 || u == 0x64 || u == 0x65 || u == 0x66 || u
            == 0x67 || u == 0x68 || u == 0x69 || u == 0x6A || u == 0x6B || u == 0x6C || u == 0x6D
            || u == 0x6E || u == 0x6F || u == 0x70 || u == 0x71 || u == 0x72 || u == 0x73 || u
            == 0x74 || u == 0x75 || u == 0x76 || u == 0x77 || u == 0x78 || u == 0x79 || u == 0x7A);
    }
}

/// In a word of letters, every character counts as a letter.
pub proof fn lemma_letters_counted(w: Seq<char>)
    requires
        spec_all_letters(w),
    ensures
        spec_letter_count(w) == w.len(),
    decreases w.len(),
{
    if w.len() > 0 {
        lemma_letters_counted(w.drop_last());
    }
}

proof fn lemma_plain_keeps_stops(s: Seq<char>, i: int)
    requires
        0 <= i <= s.len(),
        forall|k: int| 0 <= k < s.len() ==> s[k] != '.',
    ensures
        spec_shorten_stops_from(s, i) == s.subrange(i, s.len() as int),
    decreases s.len() - i,
{
    if i < s.len() {
        if i + 6 <= s.len() {
            assert(s.subrange(i, i + 6)[0] == s[i]);
            assert(seq!['.', '.', '.', '.', '.', '.'][0] == '.');
        }
        lemma_plain_keeps_stops(s, i + 1);
        assert(seq![s[i]] + s.subrange(i + 1, s.len() as int) =~= s.subrange(i, s.len() as int));
    } else {
        assert(s.subrange(i, s.len() as int) =~= Seq::<char>::empty());
    }
}

proof fn lemma_plain_keeps_ellipses(s: Seq<char>, i: int)
    requires
        0 <= i <= s.len(),
        forall|k: int| 0 <= k < s.len() ==> s[k] != '…',
    ensures
        spec_shorten_ellipses_from(s, i) == s.subrange(i, s.len() as int),
    decreases s.len() - i,
{
    if i < s.len() {
        lemma_plain_keeps_ellipses(s, i + 1);
        assert(seq![s[i]] + s.subrange(i + 1, s.len() as int) =~= s.subrange(i, s.len() as int));
    } else {
        assert(s.subrange(i, s.len() as int) =~= Seq::<char>::empty());
    }
}

/// A word without a full stop and without an ellipsis character is its
/// own short form.
pub proof fn lemma_plain_is_short_form(w: Seq<char>)
    requires
        forall|k: int| 0 <= k < w.len() ==> w[k] != '.' && w[k] != '…',
    ensures
        spec_normalize(w) == w,
{
    lemma_plain_keeps_stops(w, 0);
    assert(w.subrange(0, w.len() as int) =~= w);
    lemma_plain_keeps_ellipses(w, 0);
}

/// A word of letters is walked through without an error.
pub proof fn lemma_letters_walk(r: Run, w: Seq<char>, i: int, rem: Seq<Seq<char>>)
    requires
        0 <= i,
        spec_all_letters(w),
    ensures
        spec_walk(r, w, i, rem) is Ok,
    decreases w.len() - i,
{
    if i < w.len() {
        let c = w[i];
        lemma_letter_has_cell(c);
        assert(spec_classify(c) == Ok::<CharType, EncodeError>(CharType::English(c)));
        let at = spec_arbitrate(
            spec_open_pending(r, c, w, i, rem),
            CharType::English(c),
            w,
            i,
            rem,
        );
        assert(spec_english_step(at, c, w, i) is Ok);
        assert(spec_step(r, w, i, rem) is Ok);
        lemma_letters_walk(spec_step(r, w, i, rem)->Ok_0, w, i + 1, rem);
    }
}

/// A word of letters is neither a fraction between dollar signs nor does
/// it open with an abbreviated word, and it is its own short form.
proof fn lemma_letters_are_walked(w: Seq<char>)
    requires
        spec_all_letters(w),
    ensures
        spec_normalize(w) == w,
        spec_latex_cells(w) is None,
        spec_split_word_shortcut(w) is None,
{
    assert forall|k: int| 0 <= k < w.len() implies w[k] != '.' && w[k] != '…' by {
        assert(is_ascii_alphabetic(w[k]));
    }
    lemma_plain_is_short_form(w);
    crate::word_shortcut::lemma_shortcut_shape(w);
    if w.len() > 0 {
        assert(is_ascii_alphabetic(w[0]));
    }
}

/// The sign that opens a Latin run before the word, where the text marks
/// its runs and none is open.
pub open spec fn spec_opener(p: Progress) -> Seq<u8> {
    if p.state.english_indicator && !p.state.is_english {
        seq![spec_enter_cell(p.state)]
    } else {
        Seq::empty()
    }
}

/// Whether the word after `prev` and before `rem` opens a phrase in
/// capitals, being itself in capitals: it is the first word or follows a
/// word that is not all letters, and two words of letters follow it.
pub open spec fn spec_opens_phrase(p: Progress, prev: Seq<char>, rem: Seq<Seq<char>>) -> bool {
    (!p.state.has_processed_word || !spec_all_letters(prev)) && rem.len() >= 2 && spec_all_letters(
        rem[0],
    ) && spec_all_letters(rem[1])
}

/// A word of two capitals or more, outside a phrase in capitals and not
/// opening one, is written as the sign of a word in capitals, that is
/// the sign of a capital twice, and then its letters: the cell after the
/// two signs is the cell of the first letter, and no third sign. Only the
/// sign that opens a Latin run may stand before the two.
pub proof fn lemma_capital_word(p: Progress, w: Seq<char>, prev: Seq<char>, rem: Seq<Seq<char>>)
    requires
        w.len() >= 2,
        spec_all_capitals(w),
        !p.state.triple_big_english,
        !spec_opens_phrase(p, prev, rem),
    ensures
        spec_encode_word(p, 0, w, prev, rem) is Ok,
        (p.out + spec_opener(p) + seq![CAPITAL, CAPITAL, spec_encode_english(w[0])->0]).is_prefix_of(
            spec_encode_word(p, 0, w, prev, rem)->Ok_0.0.out,
        ),
        spec_encode_english(w[0]) is Some,
        spec_encode_english(w[0])->0 != CAPITAL,
{
    assert(spec_all_letters(w)) by {
        assert forall|k: int| 0 <= k < w.len() implies is_ascii_alphabetic(#[trigger] w[k]) by {
            assert(is_ascii_uppercase(w[k]));
        }
    }
    lemma_letters_are_walked(w);
    lemma_letters_counted(w);
    lemma_letter_has_cell(w[0]);
    assert(spec_is_all_uppercase(w)) by {
        if crate::word_stats::spec_has_lowercase(w) {
            let k = choose|k: int|
                0 <= k < w.len() && crate::utils::is_ascii_lowercase(#[trigger] w[k]);
            assert(is_ascii_uppercase(w[k]));
        }
    }
    assert(spec_has_letter(w)) by {
        assert(is_ascii_alphabetic(w[0]));
    }
    let r0 = spec_word_start(p, 0, w, prev, rem);
    let head = p.out + spec_opener(p) + seq![CAPITAL, CAPITAL];
    assert(r0.out =~= head);
    assert(r0.skip == 0);
    assert(!r0.pending);
    assert(r0.state.english_indicator ==> r0.state.is_english);
    lemma_letters_walk(r0, w, 0, rem);
    let c = w[0];
    assert(spec_classify(c) == Ok::<CharType, EncodeError>(CharType::English(c)));
    assert(spec_open_pending(r0, c, w, 0, rem) == r0);
    assert(spec_arbitrate(r0, CharType::English(c), w, 0, rem) == r0);
    let r1 = spec_step(r0, w, 0, rem)->Ok_0;
    assert(r1 == spec_english_step(r0, c, w, 0)->Ok_0);
    let want = p.out + spec_opener(p) + seq![CAPITAL, CAPITAL, spec_encode_english(c)->0];
    assert(r1.out =~= want);
    lemma_walk_keeps(r1, w, 1, rem);
    let r = spec_walk(r0, w, 0, rem)->Ok_0;
    assert(r == spec_walk(r1, w, 1, rem)->Ok_0);
    let pb = Progress { state: r.state, out: r.out };
    let q = spec_word_tail(pb, rem);
    assert(q.out.subrange(0, pb.out.len() as int) =~= pb.out);
    lemma_prefix_chain(want, r.out, q.out);
}


/// What a word of letters is to an encoder that marks no Latin runs: the
/// walk from the start of the word, which keeps the phrase in capitals
/// open or closed as the start left it, and then the end of the word.
proof fn lemma_letter_word(p: Progress, w: Seq<char>, prev: Seq<char>, rem: Seq<Seq<char>>)
    requires
        spec_all_letters(w),
    ensures
        spec_walk(spec_word_start(p, 0, w, prev, rem), w, 0, rem) is Ok,
        spec_encode_word(p, 0, w, prev, rem) is Ok,
        spec_encode_word(p, 0, w, prev, rem)->Ok_0.0 == spec_word_tail(
            Progress {
                state: spec_walk(spec_word_start(p, 0, w, prev, rem), w, 0, rem)->Ok_0.state,
                out: spec_walk(spec_word_start(p, 0, w, prev, rem), w, 0, rem)->Ok_0.out,
            },
            rem,
        ),
        spec_step_keeps(
            spec_word_start(p, 0, w, prev, rem),
            spec_walk(spec_word_start(p, 0, w, prev, rem), w, 0, rem)->Ok_0,
        ),
{
    lemma_letters_are_walked(w);
    let r0 = spec_word_start(p, 0, w, prev, rem);
    lemma_letters_walk(r0, w, 0, rem);
    lemma_walk_keeps(r0, w, 0, rem);
}

proof fn lemma_capitals_are_letters(w: Seq<char>)
    requires
        spec_all_capitals(w),
    ensures
        spec_all_letters(w),
        w.len() >= 2 ==> spec_is_all_uppercase(w),
        w.len() >= 1 ==> spec_word_stats(w).starts_with_letter,
{
    assert forall|k: int| 0 <= k < w.len() implies is_ascii_alphabetic(#[trigger] w[k]) by {
        assert(is_ascii_uppercase(w[k]));
    }
    lemma_letters_counted(w);
    if crate::word_stats::spec_has_lowercase(w) {
        let k = choose|k: int| 0 <= k < w.len() && crate::utils::is_ascii_lowercase(#[trigger] w[k]);
        assert(is_ascii_uppercase(w[k]));
    }
}

/// Where the text marks its Latin runs, a phrase in capitals is opened
/// inside a run.
pub proof fn lemma_phrase_opens_in_run(
    p: Progress,
    skip: int,
    w: Seq<char>,
    prev: Seq<char>,
    rem: Seq<Seq<char>>,
)
    requires
        p.state.english_indicator,
        !p.state.triple_big_english,
        spec_word_start(p, skip, w, prev, rem).state.triple_big_english,
    ensures
        spec_word_start(p, skip, w, prev, rem).state.is_english,
{
    if !p.state.is_english {
        assert(is_ascii_alphabetic(w[0]));
        assert(spec_has_letter(w));
    }
}

/// A word in capitals that opens a phrase is written after the sign of a
/// capital three times, and leaves the phrase open.
proof fn lemma_phrase_opens(p: Progress, a: Seq<char>, rem: Seq<Seq<char>>)
    requires
        !p.state.english_indicator,
        !p.state.triple_big_english,
        !p.state.has_processed_word,
        a.len() >= 2,
        spec_all_capitals(a),
        rem.len() >= 2,
        spec_all_letters(rem[0]),
        spec_all_letters(rem[1]),
    ensures
        spec_encode_word(p, 0, a, Seq::empty(), rem) is Ok,
        ({
            let q = spec_encode_word(p, 0, a, Seq::empty(), rem)->Ok_0.0;
            &&& (p.out + seq![CAPITAL, CAPITAL, CAPITAL]).is_prefix_of(q.out)
            &&& q.state.triple_big_english
            &&& !q.state.english_indicator
        }),
{
    let none = Seq::<char>::empty();
    lemma_capitals_are_letters(a);
    lemma_letter_word(p, a, none, rem);
    let start = spec_word_start(p, 0, a, none, rem);
    assert(start.out =~= p.out + seq![CAPITAL, CAPITAL, CAPITAL]);
    assert(start.state.triple_big_english);
    let walked = spec_walk(start, a, 0, rem)->Ok_0;
    let q = spec_encode_word(p, 0, a, none, rem)->Ok_0.0;
    assert(q.out =~= walked.out + seq![crate::unicode::SPACE]);
    lemma_prefix_of_sum(walked.out, seq![crate::unicode::SPACE]);
    lemma_prefix_chain(start.out, walked.out, q.out);
}

/// A word of letters inside a phrase in capitals, before another word of
/// letters, leaves the phrase open.
proof fn lemma_phrase_goes_on(p: Progress, b: Seq<char>, prev: Seq<char>, rem: Seq<Seq<char>>)
    requires
        !p.state.english_indicator,
        p.state.triple_big_english,
        spec_all_letters(b),
        rem.len() >= 1,
        spec_all_letters(rem[0]),
    ensures
        spec_encode_word(p, 0, b, prev, rem) is Ok,
        ({
            let q = spec_encode_word(p, 0, b, prev, rem)->Ok_0.0;
            &&& p.out.is_prefix_of(q.out)
            &&& q.state.triple_big_english
            &&& !q.state.english_indicator
        }),
{
    lemma_letter_word(p, b, prev, rem);
    let start = spec_word_start(p, 0, b, prev, rem);
    assert(start.out == p.out);
    let walked = spec_walk(start, b, 0, rem)->Ok_0;
    let q = spec_encode_word(p, 0, b, prev, rem)->Ok_0.0;
    assert(q.out =~= walked.out + seq![crate::unicode::SPACE]);
    lemma_prefix_of_sum(walked.out, seq![crate::unicode::SPACE]);
    lemma_prefix_chain(p.out, walked.out, q.out);
}

/// The last word of a text, inside a phrase in capitals, closes the
/// phrase: the sign that ends it is the last thing written.
proof fn lemma_phrase_closes(p: Progress, c: Seq<char>, prev: Seq<char>)
    requires
        !p.state.english_indicator,
        p.state.triple_big_english,
        spec_all_letters(c),
    ensures
        spec_encode_word(p, 0, c, prev, Seq::empty()) is Ok,
        ({
            let q = spec_encode_word(p, 0, c, prev, Seq::empty())->Ok_0.0;
            &&& p.out.is_prefix_of(q.out)
            &&& q.out.len() >= p.out.len() + 2
            &&& q.out.subrange(q.out.len() - 2, q.out.len() as int) == seq![CAPITAL, PHRASE_END]
            &&& !q.state.triple_big_english
        }),
{
    let rem = Seq::<Seq<char>>::empty();
    lemma_letter_word(p, c, prev, rem);
    let start = spec_word_start(p, 0, c, prev, rem);
    assert(start.out == p.out);
    let walked = spec_walk(start, c, 0, rem)->Ok_0;
    let q = spec_encode_word(p, 0, c, prev, rem)->Ok_0.0;
    assert(q.out =~= walked.out + seq![CAPITAL, PHRASE_END]);
    lemma_prefix_of_sum(walked.out, seq![CAPITAL, PHRASE_END]);
    lemma_prefix_chain(p.out, walked.out, q.out);
    assert(q.out.subrange(q.out.len() - 2, q.out.len() as int) =~= seq![CAPITAL, PHRASE_END]);
}

/// Three words in capitals in a row, the first of two letters or more,
/// are a phrase in capitals: the sign of a capital three times before the
/// first word, and the sign that ends the phrase after the last. This is
/// so for an encoder that marks no Latin runs, has seen no word and is in
/// no phrase.
#[verifier::rlimit(60)]
pub proof fn lemma_capital_phrase(p: Progress, a: Seq<char>, b: Seq<char>, c: Seq<char>)
    requires
        !p.state.english_indicator,
        !p.state.triple_big_english,
        !p.state.has_processed_word,
        a.len() >= 2,
        b.len() >= 1,
        c.len() >= 1,
        spec_all_capitals(a),
        spec_all_capitals(b),
        spec_all_capitals(c),
    ensures
        spec_encode_words(p, Seq::empty(), seq![a, b, c]) is Ok,
        ({
            let q = spec_finish(spec_encode_words(p, Seq::empty(), seq![a, b, c])->Ok_0);
            &&& (p.out + seq![CAPITAL, CAPITAL, CAPITAL]).is_prefix_of(q.out)
            &&& q.out.len() >= p.out.len() + 5
            &&& q.out.subrange(q.out.len() - 2, q.out.len() as int) == seq![CAPITAL, PHRASE_END]
            &&& !q.state.triple_big_english
        }),
{
    let ws = seq![a, b, c];
    let none = Seq::<char>::empty();
    lemma_capitals_are_letters(a);
    lemma_capitals_are_letters(b);
    lemma_capitals_are_letters(c);
    let first = ws.skip(1);
    let second = first.skip(1);
    let third = second.skip(1);
    assert(first =~= seq![b, c]);
    assert(second =~= seq![c]);
    assert(third =~= Seq::<Seq<char>>::empty());
    lemma_phrase_opens(p, a, first);
    let qa = spec_encode_word(p, 0, a, none, first)->Ok_0.0;
    lemma_phrase_goes_on(qa, b, a, second);
    let qb = spec_encode_word(qa, 0, b, a, second)->Ok_0.0;
    lemma_phrase_closes(qb, c, b);
    let qc = spec_encode_word(qb, 0, c, b, third)->Ok_0.0;
    let head = p.out + seq![CAPITAL, CAPITAL, CAPITAL];
    lemma_prefix_chain(head, qa.out, qb.out);
    lemma_prefix_chain(head, qb.out, qc.out);
    assert(spec_encode_words(qc, c, third) == Ok::<Progress, EncodeError>(qc));
    assert(spec_encode_words(qb, b, second) == Ok::<Progress, EncodeError>(qc));
    assert(spec_encode_words(qa, a, first) == Ok::<Progress, EncodeError>(qc));
    assert(spec_encode_words(p, none, ws) == Ok::<Progress, EncodeError>(qc));
}

} // verus!
