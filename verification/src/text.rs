//! Text as characters: words between spaces, and ellipses in their short form.

use vstd::prelude::*;

verus! {

/// The characters of `s`.
pub fn str_chars(s: &str) -> (v: Vec<char>)
    ensures
        v@ == s@,
{
    let mut v: Vec<char> = Vec::new();
    for c in it: s.chars()
        invariant
            v@ == it.seq().take(it.index() as int),
    {
        v.push(c);
    }
    v
}

/// The characters of `w` from `a` up to `b`.
pub(crate) fn copy_range(w: &Vec<char>, a: usize, b: usize) -> (v: Vec<char>)
    requires
        a <= b <= w.len(),
    ensures
        v@ == w@.subrange(a as int, b as int),
{
    let mut v: Vec<char> = Vec::new();
    let mut i: usize = a;
    while i < b
        invariant
            a <= i <= b <= w.len(),
            v@ == w@.subrange(a as int, i as int),
        decreases b - i,
    {
        v.push(w[i]);
        i += 1;
    }
    v
}

/// Appends `cells` to `out`.
pub fn append_cells(out: &mut Vec<u8>, cells: &Vec<u8>)
    ensures
        final(out)@ == old(out)@ + cells@,
{
    let mut i: usize = 0;
    while i < cells.len()
        invariant
            i <= cells.len(),
            out@ == old(out)@ + cells@.take(i as int),
        decreases cells.len() - i,
    {
        out.push(cells[i]);
        i += 1;
    }
}

/// Where the word that starts at `i` ends: the next space, or the end of
/// the text.
pub open spec fn spec_word_end(s: Seq<char>, i: int) -> int
    decreases s.len() - i,
{
    if 0 <= i < s.len() && s[i] != ' ' {
        spec_word_end(s, i + 1)
    } else {
        i
    }
}

/// The words of the text from `i` on: the longest stretches without a
/// space, in their order. Runs of spaces hold no empty word.
pub open spec fn spec_words_from(s: Seq<char>, i: int) -> Seq<Seq<char>>
    decreases s.len() - i,
{
    if 0 <= i < s.len() {
        if s[i] == ' ' {
            spec_words_from(s, i + 1)
        } else {
            let j = spec_word_end(s, i + 1);
            proof {
                lemma_word_end_bounds(s, i + 1);
            }
            seq![s.subrange(i, j)] + spec_words_from(s, j)
        }
    } else {
        Seq::empty()
    }
}

/// The words of the text.
pub open spec fn spec_words(s: Seq<char>) -> Seq<Seq<char>> {
    spec_words_from(s, 0)
}

/// A word ends inside the text.
pub proof fn lemma_word_end_bounds(s: Seq<char>, i: int)
    requires
        0 <= i <= s.len(),
    ensures
        i <= spec_word_end(s, i) <= s.len(),
    decreases s.len() - i,
{
    if i < s.len() && s[i] != ' ' {
        lemma_word_end_bounds(s, i + 1);
    }
}

fn word_end(s: &Vec<char>, i: usize) -> (j: usize)
    requires
        i <= s.len(),
    ensures
        j == spec_word_end(s@, i as int),
        i <= j <= s.len(),
{
    let mut j: usize = i;
    while j < s.len() && s[j] != ' '
        invariant
            i <= j <= s.len(),
            spec_word_end(s@, j as int) == spec_word_end(s@, i as int),
        decreases s.len() - j,
    {
        j += 1;
    }
    j
}

/// A list of words as their characters.
pub open spec fn words_view(ws: Seq<Vec<char>>) -> Seq<Seq<char>> {
    Seq::new(ws.len(), |k: int| ws[k]@)
}

/// Splits the text at spaces and drops the empty pieces.
pub fn split_words(s: &Vec<char>) -> (words: Vec<Vec<char>>)
    ensures
        words_view(words@) == spec_words(s@),
{
    let mut words: Vec<Vec<char>> = Vec::new();
    let mut i: usize = 0;
    while i < s.len()
        invariant
            i <= s.len(),
            words_view(words@) + spec_words_from(s@, i as int) == spec_words(s@),
        decreases s.len() - i,
    {
        if s[i] == ' ' {
            i += 1;
        } else {
            let j = word_end(s, i + 1);
            let word = copy_range(s, i, j);
            proof {
                assert(words_view(words@).push(word@) + spec_words_from(s@, j as int)
                    =~= words_view(words@) + (seq![word@] + spec_words_from(s@, j as int)));
            }
            let ghost before = words_view(words@);
            words.push(word);
            assert(words_view(words@) =~= before.push(word@));
            i = j;
        }
    }
    assert(words_view(words@) + Seq::<Seq<char>>::empty() =~= words_view(words@));
    words
}

/// The text from `i` on with each run of six full stops cut to three,
/// taken from the left without overlap.
pub open spec fn spec_shorten_stops_from(s: Seq<char>, i: int) -> Seq<char>
    decreases s.len() - i,
{
    if 0 <= i < s.len() {
        if i + 6 <= s.len() && s.subrange(i, i + 6) == seq!['.', '.', '.', '.', '.', '.'] {
            seq!['.', '.', '.'] + spec_shorten_stops_from(s, i + 6)
        } else {
            seq![s[i]] + spec_shorten_stops_from(s, i + 1)
        }
    } else {
        Seq::empty()
    }
}

/// The text from `i` on with each pair of ellipsis characters cut to one,
/// taken from the left without overlap.
pub open spec fn spec_shorten_ellipses_from(s: Seq<char>, i: int) -> Seq<char>
    decreases s.len() - i,
{
    if 0 <= i < s.len() {
        if i + 2 <= s.len() && s[i] == '…' && s[i + 1] == '…' {
            seq!['…'] + spec_shorten_ellipses_from(s, i + 2)
        } else {
            seq![s[i]] + spec_shorten_ellipses_from(s, i + 1)
        }
    } else {
        Seq::empty()
    }
}

/// A word with its long ellipses in the short form: six full stops become
/// three, then two ellipsis characters become one.
pub open spec fn spec_normalize(s: Seq<char>) -> Seq<char> {
    spec_shorten_ellipses_from(spec_shorten_stops_from(s, 0), 0)
}

fn shorten_stops(s: &Vec<char>) -> (v: Vec<char>)
    ensures
        v@ == spec_shorten_stops_from(s@, 0),
        v.len() <= s.len(),
{
    let mut v: Vec<char> = Vec::new();
    let mut i: usize = 0;
    while i < s.len()
        invariant
            i <= s.len(),
            v.len() <= i,
            v@ + spec_shorten_stops_from(s@, i as int) == spec_shorten_stops_from(s@, 0),
        decreases s.len() - i,
    {
        let ghost rest = spec_shorten_stops_from(s@, i as int);
        if s.len() - i >= 6 && s[i] == '.' && s[i + 1] == '.' && s[i + 2] == '.' && s[i + 3] == '.'
            && s[i + 4] == '.' && s[i + 5] == '.' {
            assert(s@.subrange(i as int, i + 6) =~= seq!['.', '.', '.', '.', '.', '.']);
            let ghost tail = spec_shorten_stops_from(s@, i + 6);
            assert(v@.push('.').push('.').push('.') + tail =~= v@ + (seq!['.', '.', '.'] + tail));
            v.push('.');
            v.push('.');
            v.push('.');
            i += 6;
        } else {
            proof {
                if i + 6 <= s.len() {
                    let six = s@.subrange(i as int, i + 6);
                    if six == seq!['.', '.', '.', '.', '.', '.'] {
                        assert(six[0] == '.' && six[1] == '.' && six[2] == '.' && six[3] == '.'
                            && six[4] == '.' && six[5] == '.');
                    }
                }
            }
            let ghost tail = spec_shorten_stops_from(s@, i + 1);
            assert(v@.push(s@[i as int]) + tail =~= v@ + (seq![s@[i as int]] + tail));
            v.push(s[i]);
            i += 1;
        }
    }
    assert(v@ + Seq::<char>::empty() =~= v@);
    v
}

fn shorten_ellipses(s: &Vec<char>) -> (v: Vec<char>)
    ensures
        v@ == spec_shorten_ellipses_from(s@, 0),
        v.len() <= s.len(),
{
    let mut v: Vec<char> = Vec::new();
    let mut i: usize = 0;
    while i < s.len()
        invariant
            i <= s.len(),
            v.len() <= i,
            v@ + spec_shorten_ellipses_from(s@, i as int) == spec_shorten_ellipses_from(s@, 0),
        decreases s.len() - i,
    {
        if s.len() - i >= 2 && s[i] == '…' && s[i + 1] == '…' {
            let ghost tail = spec_shorten_ellipses_from(s@, i + 2);
            assert(v@.push('…') + tail =~= v@ + (seq!['…'] + tail));
            v.push('…');
            i += 2;
        } else {
            let ghost tail = spec_shorten_ellipses_from(s@, i + 1);
            assert(v@.push(s@[i as int]) + tail =~= v@ + (seq![s@[i as int]] + tail));
            v.push(s[i]);
            i += 1;
        }
    }
    assert(v@ + Seq::<char>::empty() =~= v@);
    v
}

/// Brings the long ellipses of a word into their short form.
pub fn normalize(s: &Vec<char>) -> (v: Vec<char>)
    ensures
        v@ == spec_normalize(s@),
        v.len() <= s.len(),
{
    let stops = shorten_stops(s);
    shorten_ellipses(&stops)
}

} // verus!
