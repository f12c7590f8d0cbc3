//! Whole words that have an abbreviation.

use vstd::prelude::*;

verus! {

/// The abbreviated words, each with its cells.
pub open spec fn spec_word_shortcuts() -> Seq<(Seq<char>, Seq<u8>)> {
    seq![
        (seq!['그', '래', '서'], seq![1u8, 14u8]),
        (seq!['그', '러', '나'], seq![1u8, 9u8]),
        (seq!['그', '러', '면'], seq![1u8, 18u8]),
        (seq!['그', '러', '므', '로'], seq![1u8, 34u8]),
        (seq!['그', '런', '데'], seq![1u8, 29u8]),
        (seq!['그', '리', '고'], seq![1u8, 37u8]),
        (seq!['그', '리', '하', '여'], seq![1u8, 49u8]),
    ]
}

/// The first abbreviated word of the table, from the entry `from` on,
/// that opens the word `w`: its cells, and the number of its characters.
pub open spec fn spec_find_shortcut(
    table: Seq<(Seq<char>, Seq<u8>)>,
    w: Seq<char>,
    from: int,
) -> Option<(Seq<u8>, usize)>
    decreases table.len() - from,
{
    if from < 0 || from >= table.len() {
        None
    } else if table[from].0.is_prefix_of(w) {
        Some((table[from].1, table[from].0.len() as usize))
    } else {
        spec_find_shortcut(table, w, from + 1)
    }
}

/// The abbreviation that opens the word: its cells, and the number of
/// characters that it stands for. No abbreviated word opens another, so at
/// most one fits.
#[verifier::opaque]
pub open spec fn spec_split_word_shortcut(w: Seq<char>) -> Option<(Seq<u8>, usize)> {
    spec_find_shortcut(spec_word_shortcuts(), w, 0)
}

/// The cells and the length of an abbreviation, as plain values.
pub open spec fn shortcut_view(r: Option<(Vec<u8>, usize)>) -> Option<(Seq<u8>, usize)> {
    match r {
        Some((cells, n)) => Some((cells@, n)),
        None => None,
    }
}

proof fn lemma_found_shortcut(table: Seq<(Seq<char>, Seq<u8>)>, w: Seq<char>, from: int)
    requires
        0 <= from,
    ensures
        spec_find_shortcut(table, w, from) matches Some((cells, n)) ==> exists|k: int|
            0 <= k < table.len() && (#[trigger] table[k]).0.is_prefix_of(w) && table[k].1 == cells
                && table[k].0.len() as usize == n,
    decreases table.len() - from,
{
    if from < table.len() {
        lemma_found_shortcut(table, w, from + 1);
        if table[from].0.is_prefix_of(w) {
            let found = spec_find_shortcut(table, w, from)->Some_0;
            assert(table[from].1 == found.0);
        }
    }
}

/// An abbreviated word is three characters long or four and opens with
/// `그`; it stands in the word, and its cells are two six-dot cells.
pub proof fn lemma_shortcut_shape(w: Seq<char>)
    ensures
        spec_split_word_shortcut(w) matches Some((cells, n)) ==> 3 <= n <= w.len() && w[0] == '그'
            && cells.len() == 2 && cells[0] < 64 && cells[1] < 64,
{
    reveal(spec_split_word_shortcut);
    let t = spec_word_shortcuts();
    lemma_found_shortcut(t, w, 0);
    if spec_split_word_shortcut(w) is Some {
        let (cells, n) = spec_split_word_shortcut(w)->0;
        let k = choose|k: int|
            0 <= k < t.len() && (#[trigger] t[k]).0.is_prefix_of(w) && t[k].1 == cells && t[k].0.len()
                as usize == n;
        assert(k == 0 || k == 1 || k == 2 || k == 3 || k == 4 || k == 5 || k == 6);
        assert(t[0].0 =~= seq!['그', '래', '서'] && t[0].1 =~= seq![1u8, 14u8]);
        assert(t[1].0 =~= seq!['그', '러', '나'] && t[1].1 =~= seq![1u8, 9u8]);
        assert(t[2].0 =~= seq!['그', '러', '면'] && t[2].1 =~= seq![1u8, 18u8]);
        assert(t[3].0 =~= seq!['그', '러', '므', '로'] && t[3].1 =~= seq![1u8, 34u8]);
        assert(t[4].0 =~= seq!['그', '런', '데'] && t[4].1 =~= seq![1u8, 29u8]);
        assert(t[5].0 =~= seq!['그', '리', '고'] && t[5].1 =~= seq![1u8, 37u8]);
        assert(t[6].0 =~= seq!['그', '리', '하', '여'] && t[6].1 =~= seq![1u8, 49u8]);
        assert(t[k].0[0] == '그');
        assert(t[k].0.len() == 3 || t[k].0.len() == 4);
        assert(w.subrange(0, n as int)[0] == w[0]);
    }
}

/// Computes `spec_split_word_shortcut`.
pub fn split_word_shortcut(w: &Vec<char>) -> (r: Option<(Vec<u8>, usize)>)
    ensures
        shortcut_view(r) =~= spec_split_word_shortcut(w@),
        r matches Some((_, n)) ==> 0 < n <= w.len(),
{
    proof {
        reveal(spec_split_word_shortcut);
        let t = spec_word_shortcuts();
        reveal_with_fuel(spec_find_shortcut, 9);
        assert(t[0].0 =~= seq!['그', '래', '서']);
        assert(t[0].0.is_prefix_of(w@) == (
            w@.len() >= 3 && w@[0] == '그' && w@[1] == '래' && w@[2] == '서'
        )) by {
            let key = t[0].0;
            if (
                w@.len() >= 3 && w@[0] == '그' && w@[1] == '래' && w@[2] == '서'
            ) {
                assert(w@.subrange(0, key.len() as int) =~= key);
            }
            if key.is_prefix_of(w@) {
                let head = w@.subrange(0, key.len() as int);
                assert(head[0] == w@[0] &&
                    head[1] == w@[1] &&
                    head[2] == w@[2]);
            }
        }
        assert(t[1].0 =~= seq!['그', '러', '나']);
        assert(t[1].0.is_prefix_of(w@) == (
            w@.len() >= 3 && w@[0] == '그' && w@[1] == '러' && w@[2] == '나'
        )) by {
            let key = t[1].0;
            if (
                w@.len() >= 3 && w@[0] == '그' && w@[1] == '러' && w@[2] == '나'
            ) {
                assert(w@.subrange(0, key.len() as int) =~= key);
            }
            if key.is_prefix_of(w@) {
                let head = w@.subrange(0, key.len() as int);
                assert(head[0] == w@[0] &&
                    head[1] == w@[1] &&
                    head[2] == w@[2]);
            }
        }
        assert(t[2].0 =~= seq!['그', '러', '면']);
        assert(t[2].0.is_prefix_of(w@) == (
            w@.len() >= 3 && w@[0] == '그' && w@[1] == '러' && w@[2] == '면'
        )) by {
            let key = t[2].0;
            if (
                w@.len() >= 3 && w@[0] == '그' && w@[1] == '러' && w@[2] == '면'
            ) {
                assert(w@.subrange(0, key.len() as int) =~= key);
            }
            if key.is_prefix_of(w@) {
                let head = w@.subrange(0, key.len() as int);
                assert(head[0] == w@[0] &&
                    head[1] == w@[1] &&
                    head[2] == w@[2]);
            }
        }
        assert(t[3].0 =~= seq!['그', '러', '므', '로']);
        assert(t[3].0.is_prefix_of(w@) == (
            w@.len() >= 4 && w@[0] == '그' && w@[1] == '러' && w@[2] == '므' && w@[3] == '로'
        )) by {
            let key = t[3].0;
            if (
                w@.len() >= 4 && w@[0] == '그' && w@[1] == '러' && w@[2] == '므' && w@[3] == '로'
            ) {
                assert(w@.subrange(0, key.len() as int) =~= key);
            }
            if key.is_prefix_of(w@) {
                let head = w@.subrange(0, key.len() as int);
                assert(head[0] == w@[0] &&
                    head[1] == w@[1] &&
                    head[2] == w@[2] &&
                    head[3] == w@[3]);
            }
        }
        assert(t[4].0 =~= seq!['그', '런', '데']);
        assert(t[4].0.is_prefix_of(w@) == (
            w@.len() >= 3 && w@[0] == '그' && w@[1] == '런' && w@[2] == '데'
        )) by {
            let key = t[4].0;
            if (
                w@.len() >= 3 && w@[0] == '그' && w@[1] == '런' && w@[2] == '데'
            ) {
                assert(w@.subrange(0, key.len() as int) =~= key);
            }
            if key.is_prefix_of(w@) {
                let head = w@.subrange(0, key.len() as int);
                assert(head[0] == w@[0] &&
                    head[1] == w@[1] &&
                    head[2] == w@[2]);
            }
        }
        assert(t[5].0 =~= seq!['그', '리', '고']);
        assert(t[5].0.is_prefix_of(w@) == (
            w@.len() >= 3 && w@[0] == '그' && w@[1] == '리' && w@[2] == '고'
        )) by {
            let key = t[5].0;
            if (
                w@.len() >= 3 && w@[0] == '그' && w@[1] == '리' && w@[2] == '고'
            ) {
                assert(w@.subrange(0, key.len() as int) =~= key);
            }
            if key.is_prefix_of(w@) {
                let head = w@.subrange(0, key.len() as int);
                assert(head[0] == w@[0] &&
                    head[1] == w@[1] &&
                    head[2] == w@[2]);
            }
        }
        assert(t[6].0 =~= seq!['그', '리', '하', '여']);
        assert(t[6].0.is_prefix_of(w@) == (
            w@.len() >= 4 && w@[0] == '그' && w@[1] == '리' && w@[2] == '하' && w@[3] == '여'
        )) by {
            let key = t[6].0;
            if (
                w@.len() >= 4 && w@[0] == '그' && w@[1] == '리' && w@[2] == '하' && w@[3] == '여'
            ) {
                assert(w@.subrange(0, key.len() as int) =~= key);
            }
            if key.is_prefix_of(w@) {
                let head = w@.subrange(0, key.len() as int);
                assert(head[0] == w@[0] &&
                    head[1] == w@[1] &&
                    head[2] == w@[2] &&
                    head[3] == w@[3]);
            }
        }
    }
    if w.len() >= 3 && w[0] == '그' && w[1] == '래' && w[2] == '서' {
        Some((vec![1u8, 14u8], 3usize))
    } else if w.len() >= 3 && w[0] == '그' && w[1] == '러' && w[2] == '나' {
        Some((vec![1u8, 9u8], 3usize))
    } else if w.len() >= 3 && w[0] == '그' && w[1] == '러' && w[2] == '면' {
        Some((vec![1u8, 18u8], 3usize))
    } else if w.len() >= 4 && w[0] == '그' && w[1] == '러' && w[2] == '므' && w[3] == '로' {
        Some((vec![1u8, 34u8], 4usize))
    } else if w.len() >= 3 && w[0] == '그' && w[1] == '런' && w[2] == '데' {
        Some((vec![1u8, 29u8], 3usize))
    } else if w.len() >= 3 && w[0] == '그' && w[1] == '리' && w[2] == '고' {
        Some((vec![1u8, 37u8], 3usize))
    } else if w.len() >= 4 && w[0] == '그' && w[1] == '리' && w[2] == '하' && w[3] == '여' {
        Some((vec![1u8, 49u8], 4usize))
    } else {
        None
    }
}

} // verus!
