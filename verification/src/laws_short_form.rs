//! The short form of a word: what it keeps of the word, and that texts
//! with the same short forms are encoded alike.

use vstd::prelude::*;
use crate::encoder::spec_encode;
use crate::laws::lemma_short_form_decides;
use crate::laws_outlook::{lemma_word_sees_outlook, spec_same_outlook, spec_same_outlooks};
use crate::text::{
    lemma_word_end_bounds, spec_normalize, spec_shorten_ellipses_from, spec_shorten_stops_from,
    spec_word_end, spec_words, spec_words_from,
};
use crate::utils::{is_ascii_alphabetic, is_ascii_digit, is_korean_char};
use crate::word::{spec_encode_word, spec_encode_words, Progress};
use crate::word_stats::{
    spec_all_letters, spec_first_letter, spec_has_digit, spec_has_korean, spec_has_stranger,
    spec_is_plain_neighbour, spec_letter_count,
};

verus! {

/// Whether the two sequences hold the same characters, however often and
/// in whatever order.
pub open spec fn spec_same_chars(x: Seq<char>, y: Seq<char>) -> bool {
    forall|c: char| x.contains(c) == y.contains(c)
}

proof fn lemma_contains_sum(x: Seq<char>, y: Seq<char>, c: char)
    ensures
        (x + y).contains(c) == (x.contains(c) || y.contains(c)),
{
    if x.contains(c) {
        let k = choose|k: int| 0 <= k < x.len() && x[k] == c;
        assert((x + y)[k] == c);
    }
    if y.contains(c) {
        let k = choose|k: int| 0 <= k < y.len() && y[k] == c;
        assert((x + y)[x.len() + k] == c);
    }
    if (x + y).contains(c) {
        let k = choose|k: int| 0 <= k < (x + y).len() && (x + y)[k] == c;
        if k < x.len() {
            assert(x[k] == c);
        } else {
            assert(y[k - x.len()] == c);
        }
    }
}

proof fn lemma_count_sum(x: Seq<char>, y: Seq<char>)
    ensures
        spec_letter_count(x + y) == spec_letter_count(x) + spec_letter_count(y),
        spec_first_letter(x + y) == (if spec_letter_count(x) > 0 {
            spec_first_letter(x)
        } else {
            spec_first_letter(y)
        }),
    decreases y.len(),
{
    if y.len() == 0 {
        assert(x + y =~= x);
    } else {
        lemma_count_sum(x, y.drop_last());
        assert((x + y).drop_last() =~= x + y.drop_last());
    }
}

/// What one pass of shortening keeps of the text from `i` on: its
/// characters, the number of its letters and the first of them, and its
/// first character.
spec fn spec_pass_keeps(out: Seq<char>, s: Seq<char>, i: int) -> bool {
    let rest = s.subrange(i, s.len() as int);
    &&& spec_same_chars(out, rest)
    &&& spec_letter_count(out) == spec_letter_count(rest)
    &&& spec_first_letter(out) == spec_first_letter(rest)
    &&& (out.len() > 0) == (rest.len() > 0)
    &&& out.len() > 0 ==> out[0] == rest[0]
}

proof fn lemma_no_letters(x: Seq<char>)
    requires
        forall|k: int| 0 <= k < x.len() ==> !is_ascii_alphabetic(#[trigger] x[k]),
    ensures
        spec_letter_count(x) == 0,
        spec_first_letter(x) == '\0',
    decreases x.len(),
{
    if x.len() > 0 {
        lemma_no_letters(x.drop_last());
    }
}

proof fn lemma_pass_step(
    head_out: Seq<char>,
    head_in: Seq<char>,
    out: Seq<char>,
    s: Seq<char>,
    i: int,
    j: int,
)
    requires
        0 <= i < j <= s.len(),
        head_in == s.subrange(i, j),
        head_out.len() > 0,
        head_out[0] == s[i],
        spec_same_chars(head_out, head_in),
        spec_letter_count(head_out) == spec_letter_count(head_in),
        spec_first_letter(head_out) == spec_first_letter(head_in),
        spec_pass_keeps(out, s, j),
    ensures
        spec_pass_keeps(head_out + out, s, i),
{
    let rest = s.subrange(i, s.len() as int);
    let tail = s.subrange(j, s.len() as int);
    assert(rest =~= head_in + tail);
    lemma_count_sum(head_out, out);
    lemma_count_sum(head_in, tail);
    assert forall|c: char| (head_out + out).contains(c) == rest.contains(c) by {
        lemma_contains_sum(head_out, out, c);
        lemma_contains_sum(head_in, tail, c);
    }
}

proof fn lemma_stops_keep(s: Seq<char>, i: int)
    requires
        0 <= i <= s.len(),
    ensures
        spec_pass_keeps(spec_shorten_stops_from(s, i), s, i),
    decreases s.len() - i,
{
    if i < s.len() {
        let six = seq!['.', '.', '.', '.', '.', '.'];
        let three = seq!['.', '.', '.'];
        if i + 6 <= s.len() && s.subrange(i, i + 6) == six {
            lemma_stops_keep(s, i + 6);
            assert(six[0] == '.');
            assert(s.subrange(i, i + 6)[0] == s[i]);
            assert forall|c: char| three.contains(c) == six.contains(c) by {
                if three.contains(c) {
                    let k = choose|k: int| 0 <= k < three.len() && three[k] == c;
                    assert(six[k] == c);
                }
                if six.contains(c) {
                    let k = choose|k: int| 0 <= k < six.len() && six[k] == c;
                    assert(three[0] == c);
                }
            }
            lemma_no_letters(six);
            lemma_no_letters(three);
            lemma_pass_step(three, six, spec_shorten_stops_from(s, i + 6), s, i, i + 6);
        } else {
            lemma_stops_keep(s, i + 1);
            assert(s.subrange(i, i + 1) =~= seq![s[i]]);
            lemma_pass_step(seq![s[i]], seq![s[i]], spec_shorten_stops_from(s, i + 1), s, i, i + 1);
        }
    } else {
        assert(s.subrange(i, s.len() as int) =~= Seq::<char>::empty());
    }
}

proof fn lemma_ellipses_keep(s: Seq<char>, i: int)
    requires
        0 <= i <= s.len(),
    ensures
        spec_pass_keeps(spec_shorten_ellipses_from(s, i), s, i),
    decreases s.len() - i,
{
    if i < s.len() {
        if i + 2 <= s.len() && s[i] == '…' && s[i + 1] == '…' {
            let two = seq!['…', '…'];
            let one = seq!['…'];
            lemma_ellipses_keep(s, i + 2);
            assert(s.subrange(i, i + 2) =~= two);
            assert forall|c: char| one.contains(c) == two.contains(c) by {
                if one.contains(c) {
                    let k = choose|k: int| 0 <= k < one.len() && one[k] == c;
                    assert(two[k] == c);
                }
                if two.contains(c) {
                    let k = choose|k: int| 0 <= k < two.len() && two[k] == c;
                    assert(one[0] == c);
                }
            }
            lemma_no_letters(two);
            lemma_no_letters(one);
            lemma_pass_step(one, two, spec_shorten_ellipses_from(s, i + 2), s, i, i + 2);
        } else {
            lemma_ellipses_keep(s, i + 1);
            assert(s.subrange(i, i + 1) =~= seq![s[i]]);
            lemma_pass_step(
                seq![s[i]],
                seq![s[i]],
                spec_shorten_ellipses_from(s, i + 1),
                s,
                i,
                i + 1,
            );
        }
    } else {
        assert(s.subrange(i, s.len() as int) =~= Seq::<char>::empty());
    }
}

/// What two sequences with the same characters agree on.
proof fn lemma_same_chars_agree(x: Seq<char>, y: Seq<char>)
    requires
        spec_same_chars(x, y),
    ensures
        spec_all_letters(x) == spec_all_letters(y),
        spec_has_digit(x) == spec_has_digit(y),
        spec_has_stranger(x) == spec_has_stranger(y),
        spec_has_korean(x) == spec_has_korean(y),
{
    lemma_chars_decide(x, y);
    lemma_chars_decide(y, x);
}

proof fn lemma_chars_decide(x: Seq<char>, y: Seq<char>)
    requires
        spec_same_chars(x, y),
    ensures
        spec_all_letters(y) ==> spec_all_letters(x),
        spec_has_digit(x) ==> spec_has_digit(y),
        spec_has_stranger(x) ==> spec_has_stranger(y),
        spec_has_korean(x) ==> spec_has_korean(y),
{
    if spec_all_letters(y) {
        assert forall|k: int| 0 <= k < x.len() implies is_ascii_alphabetic(#[trigger] x[k]) by {
            assert(x.contains(x[k]));
            let m = choose|m: int| 0 <= m < y.len() && y[m] == x[k];
            assert(is_ascii_alphabetic(y[m]));
        }
    }
    if spec_has_digit(x) {
        let k = choose|k: int| 0 <= k < x.len() && is_ascii_digit(#[trigger] x[k]);
        assert(x.contains(x[k]));
        let m = choose|m: int| 0 <= m < y.len() && y[m] == x[k];
        assert(is_ascii_digit(y[m]));
    }
    if spec_has_stranger(x) {
        let k = choose|k: int| 0 <= k < x.len() && !spec_is_plain_neighbour(#[trigger] x[k]);
        assert(x.contains(x[k]));
        let m = choose|m: int| 0 <= m < y.len() && y[m] == x[k];
        assert(!spec_is_plain_neighbour(y[m]));
    }
    if spec_has_korean(x) {
        let k = choose|k: int| 0 <= k < x.len() && is_korean_char(#[trigger] x[k]);
        assert(x.contains(x[k]));
        let m = choose|m: int| 0 <= m < y.len() && y[m] == x[k];
        assert(is_korean_char(y[m]));
    }
}

/// The short form of a word holds the characters of the word, and looks
/// like the word from another word.
pub proof fn lemma_short_form_keeps(w: Seq<char>)
    ensures
        spec_same_chars(spec_normalize(w), w),
        spec_same_outlook(spec_normalize(w), w),
        spec_has_korean(spec_normalize(w)) == spec_has_korean(w),
{
    let mid = spec_shorten_stops_from(w, 0);
    let out = spec_normalize(w);
    lemma_stops_keep(w, 0);
    lemma_ellipses_keep(mid, 0);
    assert(w.subrange(0, w.len() as int) =~= w);
    assert(mid.subrange(0, mid.len() as int) =~= mid);
    lemma_same_chars_agree(out, w);
}


/// Whether the two lists hold as many words, with the same short forms
/// word by word.
pub open spec fn spec_same_short_forms(xs: Seq<Seq<char>>, ys: Seq<Seq<char>>) -> bool {
    &&& xs.len() == ys.len()
    &&& forall|k: int| 0 <= k < xs.len() ==> spec_normalize(#[trigger] xs[k]) == spec_normalize(ys[k])
}

proof fn lemma_short_forms_look_alike(xs: Seq<Seq<char>>, ys: Seq<Seq<char>>)
    requires
        spec_same_short_forms(xs, ys),
    ensures
        spec_same_outlooks(xs, ys),
        forall|k: int| 0 <= k < xs.len() ==> spec_has_korean(#[trigger] xs[k]) == spec_has_korean(ys[k]),
{
    assert forall|k: int| 0 <= k < xs.len() implies spec_same_outlook(#[trigger] xs[k], ys[k])
        && spec_has_korean(xs[k]) == spec_has_korean(ys[k]) by {
        lemma_short_form_keeps(xs[k]);
        lemma_short_form_keeps(ys[k]);
        assert(spec_normalize(xs[k]) == spec_normalize(ys[k]));
    }
}

/// Two lists of words with the same short forms are encoded alike.
pub proof fn lemma_words_with_same_short_forms(
    p: Progress,
    prev: Seq<char>,
    other: Seq<char>,
    xs: Seq<Seq<char>>,
    ys: Seq<Seq<char>>,
)
    requires
        spec_same_short_forms(xs, ys),
        spec_all_letters(prev) == spec_all_letters(other),
    ensures
        spec_encode_words(p, prev, xs) == spec_encode_words(p, other, ys),
    decreases xs.len(),
{
    if xs.len() > 0 {
        let rx = xs.skip(1);
        let ry = ys.skip(1);
        assert(spec_same_short_forms(rx, ry)) by {
            assert forall|k: int| 0 <= k < rx.len() implies spec_normalize(#[trigger] rx[k])
                == spec_normalize(ry[k]) by {
                assert(rx[k] == xs[k + 1]);
                assert(ry[k] == ys[k + 1]);
            }
        }
        lemma_short_forms_look_alike(rx, ry);
        lemma_short_forms_look_alike(xs, ys);
        assert(spec_same_outlook(xs[0], ys[0]));
        lemma_short_form_decides(p, 0, xs[0], ys[0], prev, rx);
        lemma_word_sees_outlook(p, 0, ys[0], prev, other, rx, ry);
        let first = spec_encode_word(p, 0, xs[0], prev, rx);
        assert(first == spec_encode_word(p, 0, ys[0], other, ry));
        if first is Ok {
            lemma_words_with_same_short_forms(first->Ok_0.0, xs[0], ys[0], rx, ry);
        }
    }
}

/// Whether a Hangul syllable stands in one of the words.
pub open spec fn spec_any_korean(ws: Seq<Seq<char>>) -> bool {
    exists|k: int| 0 <= k < ws.len() && spec_has_korean(#[trigger] ws[k])
}

/// A text holds a Hangul syllable where one of its words does.
pub proof fn lemma_korean_in_words(s: Seq<char>, i: int)
    requires
        0 <= i <= s.len(),
    ensures
        spec_any_korean(spec_words_from(s, i)) == (exists|m: int|
            i <= m < s.len() && is_korean_char(#[trigger] s[m])),
    decreases s.len() - i,
{
    let here = exists|m: int| i <= m < s.len() && is_korean_char(#[trigger] s[m]);
    let ws = spec_words_from(s, i);
    if i < s.len() {
        if s[i] == ' ' {
            lemma_korean_in_words(s, i + 1);
            if here {
                let m = choose|m: int| i <= m < s.len() && is_korean_char(#[trigger] s[m]);
                assert(i + 1 <= m);
            }
        } else {
            let j = spec_word_end(s, i + 1);
            lemma_word_end_bounds(s, i + 1);
            lemma_korean_in_words(s, j);
            let word = s.subrange(i, j);
            let rest = spec_words_from(s, j);
            assert(ws == seq![word] + rest);
            if here {
                let m = choose|m: int| i <= m < s.len() && is_korean_char(#[trigger] s[m]);
                if m < j {
                    assert(word[m - i] == s[m]);
                    assert(spec_has_korean(word));
                    assert(ws[0] == word);
                } else {
                    let k = choose|k: int| 0 <= k < rest.len() && spec_has_korean(#[trigger] rest[k]);
                    assert(ws[k + 1] == rest[k]);
                }
            }
            if spec_any_korean(ws) {
                let k = choose|k: int| 0 <= k < ws.len() && spec_has_korean(#[trigger] ws[k]);
                if k == 0 {
                    let m = choose|m: int| 0 <= m < word.len() && is_korean_char(#[trigger] word[m]);
                    assert(is_korean_char(s[i + m]));
                } else {
                    assert(rest[k - 1] == ws[k]);
                    assert(spec_any_korean(rest));
                    let m = choose|m: int| j <= m < s.len() && is_korean_char(#[trigger] s[m]);
                    assert(i <= m);
                }
            }
        }
    }
}

/// Two texts whose words have the same short forms, word by word, are
/// encoded alike. So are a text with six full stops and the text with
/// three in their place, as long as the shortening does not bring a new
/// run of six together; and likewise for ellipsis characters.
pub proof fn lemma_texts_with_same_short_forms(a: Seq<char>, b: Seq<char>)
    requires
        spec_same_short_forms(spec_words(a), spec_words(b)),
    ensures
        spec_encode(a) == spec_encode(b),
{
    let xs = spec_words(a);
    let ys = spec_words(b);
    lemma_korean_in_words(a, 0);
    lemma_korean_in_words(b, 0);
    lemma_short_forms_look_alike(xs, ys);
    assert(spec_any_korean(xs) == spec_any_korean(ys)) by {
        if spec_any_korean(xs) {
            let k = choose|k: int| 0 <= k < xs.len() && spec_has_korean(#[trigger] xs[k]);
            assert(spec_has_korean(ys[k]));
        }
        if spec_any_korean(ys) {
            let k = choose|k: int| 0 <= k < ys.len() && spec_has_korean(#[trigger] ys[k]);
            assert(spec_has_korean(xs[k]));
        }
    }
    assert(spec_has_korean(a) == spec_has_korean(b));
    let p = Progress {
        state: crate::encoder::spec_fresh(spec_has_korean(a)),
        out: Seq::empty(),
    };
    lemma_words_with_same_short_forms(p, Seq::empty(), Seq::empty(), xs, ys);
}


/// Whether no letter without a form as a final stands right before a
/// full stop.
pub open spec fn spec_no_bare_number(s: Seq<char>) -> bool {
    forall|k: int|
        0 <= k && k + 1 < s.len() ==> !(crate::step::spec_lacks_final_form(#[trigger] s[k]) && s[k
            + 1] == '.')
}

proof fn lemma_no_bare_sum(x: Seq<char>, y: Seq<char>)
    requires
        spec_no_bare_number(x),
        spec_no_bare_number(y),
        !(x.len() > 0 && y.len() > 0 && crate::step::spec_lacks_final_form(x.last()) && y[0]
            == '.'),
    ensures
        spec_no_bare_number(x + y),
{
    let s = x + y;
    assert forall|k: int| 0 <= k && k + 1 < s.len() implies !(crate::step::spec_lacks_final_form(
        #[trigger] s[k],
    ) && s[k + 1] == '.') by {
        if k + 1 < x.len() {
            assert(s[k] == x[k] && s[k + 1] == x[k + 1]);
        } else if k >= x.len() {
            assert(s[k] == y[k - x.len()] && s[k + 1] == y[k + 1 - x.len()]);
        } else {
            assert(s[k] == x.last() && s[k + 1] == y[0]);
        }
    }
}

proof fn lemma_stops_no_bare(s: Seq<char>, i: int)
    requires
        0 <= i <= s.len(),
        spec_no_bare_number(s),
    ensures
        spec_no_bare_number(spec_shorten_stops_from(s, i)),
    decreases s.len() - i,
{
    if i < s.len() {
        if i + 6 <= s.len() && s.subrange(i, i + 6) == seq!['.', '.', '.', '.', '.', '.'] {
            lemma_stops_no_bare(s, i + 6);
            let three = seq!['.', '.', '.'];
            assert(!crate::step::spec_lacks_final_form('.'));
            lemma_no_bare_sum(three, spec_shorten_stops_from(s, i + 6));
        } else {
            lemma_stops_no_bare(s, i + 1);
            lemma_stops_keep(s, i + 1);
            let tail = spec_shorten_stops_from(s, i + 1);
            if tail.len() > 0 {
                assert(s.subrange(i + 1, s.len() as int)[0] == s[i + 1]);
            }
            lemma_no_bare_sum(seq![s[i]], tail);
        }
    }
}

proof fn lemma_ellipses_no_bare(s: Seq<char>, i: int)
    requires
        0 <= i <= s.len(),
        spec_no_bare_number(s),
    ensures
        spec_no_bare_number(spec_shorten_ellipses_from(s, i)),
    decreases s.len() - i,
{
    if i < s.len() {
        if i + 2 <= s.len() && s[i] == '…' && s[i + 1] == '…' {
            lemma_ellipses_no_bare(s, i + 2);
            assert(!crate::step::spec_lacks_final_form('…'));
            lemma_no_bare_sum(seq!['…'], spec_shorten_ellipses_from(s, i + 2));
        } else {
            lemma_ellipses_no_bare(s, i + 1);
            lemma_ellipses_keep(s, i + 1);
            let tail = spec_shorten_ellipses_from(s, i + 1);
            if tail.len() > 0 {
                assert(s.subrange(i + 1, s.len() as int)[0] == s[i + 1]);
            }
            lemma_no_bare_sum(seq![s[i]], tail);
        }
    }
}

/// Shortening brings no letter before a full stop that did not stand
/// before one.
pub proof fn lemma_short_form_no_bare(w: Seq<char>)
    requires
        spec_no_bare_number(w),
    ensures
        spec_no_bare_number(spec_normalize(w)),
{
    lemma_stops_no_bare(w, 0);
    lemma_ellipses_no_bare(spec_shorten_stops_from(w, 0), 0);
}

} // verus!
