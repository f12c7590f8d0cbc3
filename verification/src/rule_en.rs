//! Groups of Latin letters that are written as one cell.

use vstd::prelude::*;
use crate::utils::{ascii_lower, spec_ascii_lower};

verus! {

/// The character at `j` in lower case; the null character past the end.
pub open spec fn spec_lower_at(w: Seq<char>, j: int) -> char {
    if 0 <= j < w.len() {
        spec_ascii_lower(w[j])
    } else {
        '\0'
    }
}

/// Whether the letters of `group` stand in `w` at `i`, in either case.
pub open spec fn spec_has_group_at(w: Seq<char>, i: int, group: Seq<char>) -> bool {
    forall|k: int| 0 <= k < group.len() ==> spec_lower_at(w, i + k) == #[trigger] group[k]
}

/// The first group of the table, from the entry `from` on, that stands
/// in `w` at `i`: its cell, and the number of letters after the first that
/// it takes.
pub open spec fn spec_find_group(
    table: Seq<(Seq<char>, u8)>,
    w: Seq<char>,
    i: int,
    from: int,
) -> Option<(u8, usize)>
    decreases table.len() - from,
{
    if from < 0 || from >= table.len() {
        None
    } else if spec_has_group_at(w, i, table[from].0) {
        Some((table[from].1, (table[from].0.len() - 1) as usize))
    } else {
        spec_find_group(table, w, i, from + 1)
    }
}

/// The groups that may stand anywhere in a word, each with its cell. A
/// group stands before every group that opens it, so that the longer one
/// is found first.
pub open spec fn spec_groups_anywhere() -> Seq<(Seq<char>, u8)> {
    seq![
        (seq!['w', 'i', 't', 'h'], 62u8),
        (seq!['a', 'n', 'd'], 47u8),
        (seq!['f', 'o', 'r'], 63u8),
        (seq!['t', 'h', 'e'], 46u8),
        (seq!['i', 'n', 'g'], 44u8),
        (seq!['o', 'f'], 55u8),
        (seq!['c', 'h'], 33u8),
        (seq!['g', 'h'], 35u8),
        (seq!['s', 'h'], 41u8),
        (seq!['t', 'h'], 57u8),
        (seq!['w', 'h'], 49u8),
        (seq!['e', 'd'], 43u8),
        (seq!['e', 'r'], 59u8),
        (seq!['o', 'u'], 51u8),
        (seq!['o', 'w'], 42u8),
        (seq!['s', 't'], 12u8),
        (seq!['a', 'r'], 28u8),
        (seq!['e', 'n'], 34u8),
        (seq!['i', 'n'], 20u8),
    ]
}

/// The groups that may only open a word, each with its cell.
pub open spec fn spec_groups_at_start() -> Seq<(Seq<char>, u8)> {
    seq![
        (seq!['c', 'o', 'n'], 18u8),
        (seq!['d', 'i', 's'], 50u8),
        (seq!['b', 'e'], 6u8),
    ]
}

/// The group of letters that starts at `i` and may stand anywhere in a
/// word, as its cell and the number of letters after the first that it
/// takes. Case is not told apart. Where two groups fit, the longer one is
/// taken.
#[verifier::opaque]
pub open spec fn spec_rule_en_10_4(w: Seq<char>, i: int) -> Option<(u8, usize)> {
    spec_find_group(spec_groups_anywhere(), w, i, 0)
}

/// The group of letters that starts at `i` and may only open a word, as
/// its cell and the number of letters after the first that it takes.
#[verifier::opaque]
pub open spec fn spec_rule_en_10_6(w: Seq<char>, i: int) -> Option<(u8, usize)> {
    spec_find_group(spec_groups_at_start(), w, i, 0)
}

fn lower_at(w: &Vec<char>, i: usize, k: usize) -> (c: char)
    requires
        i < w.len(),
    ensures
        c == spec_lower_at(w@, i + k),
{
    if k < w.len() - i {
        ascii_lower(w[i + k])
    } else {
        '\0'
    }
}

proof fn lemma_nothing_past_the_end(
    table: Seq<(Seq<char>, u8)>,
    w: Seq<char>,
    i: int,
    from: int,
)
    requires
        i >= w.len(),
        0 <= from,
        forall|k: int|
            0 <= k < table.len() ==> (#[trigger] table[k]).0.len() > 0 && table[k].0[0] != '\0',
    ensures
        spec_find_group(table, w, i, from) is None,
    decreases table.len() - from,
{
    if from < table.len() {
        assert(table[from].0[0] != '\0');
        lemma_nothing_past_the_end(table, w, i, from + 1);
    }
}

/// Computes `spec_rule_en_10_4`.
pub fn rule_en_10_4(w: &Vec<char>, i: usize) -> (r: Option<(u8, usize)>)
    ensures
        r == spec_rule_en_10_4(w@, i as int),
        r matches Some((_, k)) ==> i + k < w.len(),
{
    reveal(spec_rule_en_10_4);
    if i >= w.len() {
        proof {
            lemma_nothing_past_the_end(spec_groups_anywhere(), w@, i as int, 0);
        }
        return None;
    }
    let a = lower_at(w, i, 0);
    let b = lower_at(w, i, 1);
    let c = lower_at(w, i, 2);
    let d = lower_at(w, i, 3);
    proof {
        let t = spec_groups_anywhere();
        reveal_with_fuel(spec_find_group, 21);
        assert(t[0].0 =~= seq!['w', 'i', 't', 'h']);
        assert(spec_has_group_at(w@, i as int, t[0].0) == (
            a == 'w' && b == 'i' && c == 't' && d == 'h'
        )) by {
            let p = t[0].0;
            if a == 'w' && b == 'i' && c == 't' && d == 'h' {
                assert forall|k: int| 0 <= k < p.len() implies spec_lower_at(
                    w@,
                    i + k,
                ) == p[k] by {
                    assert(k == 0 || k == 1 || k == 2 || k == 3);
                }
            }
            if spec_has_group_at(w@, i as int, p) {
                assert(spec_lower_at(w@, i + 0) == p[0] &&
                    spec_lower_at(w@, i + 1) == p[1] &&
                    spec_lower_at(w@, i + 2) == p[2] &&
                    spec_lower_at(w@, i + 3) == p[3]);
            }
        }
        assert(t[1].0 =~= seq!['a', 'n', 'd']);
        assert(spec_has_group_at(w@, i as int, t[1].0) == (
            a == 'a' && b == 'n' && c == 'd'
        )) by {
            let p = t[1].0;
            if a == 'a' && b == 'n' && c == 'd' {
                assert forall|k: int| 0 <= k < p.len() implies spec_lower_at(
                    w@,
                    i + k,
                ) == p[k] by {
                    assert(k == 0 || k == 1 || k == 2);
                }
            }
            if spec_has_group_at(w@, i as int, p) {
                assert(spec_lower_at(w@, i + 0) == p[0] &&
                    spec_lower_at(w@, i + 1) == p[1] &&
                    spec_lower_at(w@, i + 2) == p[2]);
            }
        }
        assert(t[2].0 =~= seq!['f', 'o', 'r']);
        assert(spec_has_group_at(w@, i as int, t[2].0) == (
            a == 'f' && b == 'o' && c == 'r'
        )) by {
            let p = t[2].0;
            if a == 'f' && b == 'o' && c == 'r' {
                assert forall|k: int| 0 <= k < p.len() implies spec_lower_at(
                    w@,
                    i + k,
                ) == p[k] by {
                    assert(k == 0 || k == 1 || k == 2);
                }
            }
            if spec_has_group_at(w@, i as int, p) {
                assert(spec_lower_at(w@, i + 0) == p[0] &&
                    spec_lower_at(w@, i + 1) == p[1] &&
                    spec_lower_at(w@, i + 2) == p[2]);
            }
        }
        assert(t[3].0 =~= seq!['t', 'h', 'e']);
        assert(spec_has_group_at(w@, i as int, t[3].0) == (
            a == 't' && b == 'h' && c == 'e'
        )) by {
            let p = t[3].0;
            if a == 't' && b == 'h' && c == 'e' {
                assert forall|k: int| 0 <= k < p.len() implies spec_lower_at(
                    w@,
                    i + k,
                ) == p[k] by {
                    assert(k == 0 || k == 1 || k == 2);
                }
            }
            if spec_has_group_at(w@, i as int, p) {
                assert(spec_lower_at(w@, i + 0) == p[0] &&
                    spec_lower_at(w@, i + 1) == p[1] &&
                    spec_lower_at(w@, i + 2) == p[2]);
            }
        }
        assert(t[4].0 =~= seq!['i', 'n', 'g']);
        assert(spec_has_group_at(w@, i as int, t[4].0) == (
            a == 'i' && b == 'n' && c == 'g'
        )) by {
            let p = t[4].0;
            if a == 'i' && b == 'n' && c == 'g' {
                assert forall|k: int| 0 <= k < p.len() implies spec_lower_at(
                    w@,
                    i + k,
                ) == p[k] by {
                    assert(k == 0 || k == 1 || k == 2);
                }
            }
            if spec_has_group_at(w@, i as int, p) {
                assert(spec_lower_at(w@, i + 0) == p[0] &&
                    spec_lower_at(w@, i + 1) == p[1] &&
                    spec_lower_at(w@, i + 2) == p[2]);
            }
        }
        assert(t[5].0 =~= seq!['o', 'f']);
        assert(spec_has_group_at(w@, i as int, t[5].0) == (
            a == 'o' && b == 'f'
        )) by {
            let p = t[5].0;
            if a == 'o' && b == 'f' {
                assert forall|k: int| 0 <= k < p.len() implies spec_lower_at(
                    w@,
                    i + k,
                ) == p[k] by {
                    assert(k == 0 || k == 1);
                }
            }
            if spec_has_group_at(w@, i as int, p) {
                assert(spec_lower_at(w@, i + 0) == p[0] &&
                    spec_lower_at(w@, i + 1) == p[1]);
            }
        }
        assert(t[6].0 =~= seq!['c', 'h']);
        assert(spec_has_group_at(w@, i as int, t[6].0) == (
            a == 'c' && b == 'h'
        )) by {
            let p = t[6].0;
            if a == 'c' && b == 'h' {
                assert forall|k: int| 0 <= k < p.len() implies spec_lower_at(
                    w@,
                    i + k,
                ) == p[k] by {
                    assert(k == 0 || k == 1);
                }
            }
            if spec_has_group_at(w@, i as int, p) {
                assert(spec_lower_at(w@, i + 0) == p[0] &&
                    spec_lower_at(w@, i + 1) == p[1]);
            }
        }
        assert(t[7].0 =~= seq!['g', 'h']);
        assert(spec_has_group_at(w@, i as int, t[7].0) == (
            a == 'g' && b == 'h'
        )) by {
            let p = t[7].0;
            if a == 'g' && b == 'h' {
                assert forall|k: int| 0 <= k < p.len() implies spec_lower_at(
                    w@,
                    i + k,
                ) == p[k] by {
                    assert(k == 0 || k == 1);
                }
            }
            if spec_has_group_at(w@, i as int, p) {
                assert(spec_lower_at(w@, i + 0) == p[0] &&
                    spec_lower_at(w@, i + 1) == p[1]);
            }
        }
        assert(t[8].0 =~= seq!['s', 'h']);
        assert(spec_has_group_at(w@, i as int, t[8].0) == (
            a == 's' && b == 'h'
        )) by {
            let p = t[8].0;
            if a == 's' && b == 'h' {
                assert forall|k: int| 0 <= k < p.len() implies spec_lower_at(
                    w@,
                    i + k,
                ) == p[k] by {
                    assert(k == 0 || k == 1);
                }
            }
            if spec_has_group_at(w@, i as int, p) {
                assert(spec_lower_at(w@, i + 0) == p[0] &&
                    spec_lower_at(w@, i + 1) == p[1]);
            }
        }
        assert(t[9].0 =~= seq!['t', 'h']);
        assert(spec_has_group_at(w@, i as int, t[9].0) == (
            a == 't' && b == 'h'
        )) by {
            let p = t[9].0;
            if a == 't' && b == 'h' {
                assert forall|k: int| 0 <= k < p.len() implies spec_lower_at(
                    w@,
                    i + k,
                ) == p[k] by {
                    assert(k == 0 || k == 1);
                }
            }
            if spec_has_group_at(w@, i as int, p) {
                assert(spec_lower_at(w@, i + 0) == p[0] &&
                    spec_lower_at(w@, i + 1) == p[1]);
            }
        }
        assert(t[10].0 =~= seq!['w', 'h']);
        assert(spec_has_group_at(w@, i as int, t[10].0) == (
            a == 'w' && b == 'h'
        )) by {
            let p = t[10].0;
            if a == 'w' && b == 'h' {
                assert forall|k: int| 0 <= k < p.len() implies spec_lower_at(
                    w@,
                    i + k,
                ) == p[k] by {
                    assert(k == 0 || k == 1);
                }
            }
            if spec_has_group_at(w@, i as int, p) {
                assert(spec_lower_at(w@, i + 0) == p[0] &&
                    spec_lower_at(w@, i + 1) == p[1]);
            }
        }
        assert(t[11].0 =~= seq!['e', 'd']);
        assert(spec_has_group_at(w@, i as int, t[11].0) == (
            a == 'e' && b == 'd'
        )) by {
            let p = t[11].0;
            if a == 'e' && b == 'd' {
                assert forall|k: int| 0 <= k < p.len() implies spec_lower_at(
                    w@,
                    i + k,
                ) == p[k] by {
                    assert(k == 0 || k == 1);
                }
            }
            if spec_has_group_at(w@, i as int, p) {
                assert(spec_lower_at(w@, i + 0) == p[0] &&
                    spec_lower_at(w@, i + 1) == p[1]);
            }
        }
        assert(t[12].0 =~= seq!['e', 'r']);
        assert(spec_has_group_at(w@, i as int, t[12].0) == (
            a == 'e' && b == 'r'
        )) by {
            let p = t[12].0;
            if a == 'e' && b == 'r' {
                assert forall|k: int| 0 <= k < p.len() implies spec_lower_at(
                    w@,
                    i + k,
                ) == p[k] by {
                    assert(k == 0 || k == 1);
                }
            }
            if spec_has_group_at(w@, i as int, p) {
                assert(spec_lower_at(w@, i + 0) == p[0] &&
                    spec_lower_at(w@, i + 1) == p[1]);
            }
        }
        assert(t[13].0 =~= seq!['o', 'u']);
        assert(spec_has_group_at(w@, i as int, t[13].0) == (
            a == 'o' && b == 'u'
        )) by {
            let p = t[13].0;
            if a == 'o' && b == 'u' {
                assert forall|k: int| 0 <= k < p.len() implies spec_lower_at(
                    w@,
                    i + k,
                ) == p[k] by {
                    assert(k == 0 || k == 1);
                }
            }
            if spec_has_group_at(w@, i as int, p) {
                assert(spec_lower_at(w@, i + 0) == p[0] &&
                    spec_lower_at(w@, i + 1) == p[1]);
            }
        }
        assert(t[14].0 =~= seq!['o', 'w']);
        assert(spec_has_group_at(w@, i as int, t[14].0) == (
            a == 'o' && b == 'w'
        )) by {
            let p = t[14].0;
            if a == 'o' && b == 'w' {
                assert forall|k: int| 0 <= k < p.len() implies spec_lower_at(
                    w@,
                    i + k,
                ) == p[k] by {
                    assert(k == 0 || k == 1);
                }
            }
            if spec_has_group_at(w@, i as int, p) {
                assert(spec_lower_at(w@, i + 0) == p[0] &&
                    spec_lower_at(w@, i + 1) == p[1]);
            }
        }
        assert(t[15].0 =~= seq!['s', 't']);
        assert(spec_has_group_at(w@, i as int, t[15].0) == (
            a == 's' && b == 't'
        )) by {
            let p = t[15].0;
            if a == 's' && b == 't' {
                assert forall|k: int| 0 <= k < p.len() implies spec_lower_at(
                    w@,
                    i + k,
                ) == p[k] by {
                    assert(k == 0 || k == 1);
                }
            }
            if spec_has_group_at(w@, i as int, p) {
                assert(spec_lower_at(w@, i + 0) == p[0] &&
                    spec_lower_at(w@, i + 1) == p[1]);
            }
        }
        assert(t[16].0 =~= seq!['a', 'r']);
        assert(spec_has_group_at(w@, i as int, t[16].0) == (
            a == 'a' && b == 'r'
        )) by {
            let p = t[16].0;
            if a == 'a' && b == 'r' {
                assert forall|k: int| 0 <= k < p.len() implies spec_lower_at(
                    w@,
                    i + k,
                ) == p[k] by {
                    assert(k == 0 || k == 1);
                }
            }
            if spec_has_group_at(w@, i as int, p) {
                assert(spec_lower_at(w@, i + 0) == p[0] &&
                    spec_lower_at(w@, i + 1) == p[1]);
            }
        }
        assert(t[17].0 =~= seq!['e', 'n']);
        assert(spec_has_group_at(w@, i as int, t[17].0) == (
            a == 'e' && b == 'n'
        )) by {
            let p = t[17].0;
            if a == 'e' && b == 'n' {
                assert forall|k: int| 0 <= k < p.len() implies spec_lower_at(
                    w@,
                    i + k,
                ) == p[k] by {
                    assert(k == 0 || k == 1);
                }
            }
            if spec_has_group_at(w@, i as int, p) {
                assert(spec_lower_at(w@, i + 0) == p[0] &&
                    spec_lower_at(w@, i + 1) == p[1]);
            }
        }
        assert(t[18].0 =~= seq!['i', 'n']);
        assert(spec_has_group_at(w@, i as int, t[18].0) == (
            a == 'i' && b == 'n'
        )) by {
            let p = t[18].0;
            if a == 'i' && b == 'n' {
                assert forall|k: int| 0 <= k < p.len() implies spec_lower_at(
                    w@,
                    i + k,
                ) == p[k] by {
                    assert(k == 0 || k == 1);
                }
            }
            if spec_has_group_at(w@, i as int, p) {
                assert(spec_lower_at(w@, i + 0) == p[0] &&
                    spec_lower_at(w@, i + 1) == p[1]);
            }
        }
    }
    if a == 'w' && b == 'i' && c == 't' && d == 'h' {
        Some((62u8, 3usize))
    } else if a == 'a' && b == 'n' && c == 'd' {
        Some((47u8, 2usize))
    } else if a == 'f' && b == 'o' && c == 'r' {
        Some((63u8, 2usize))
    } else if a == 't' && b == 'h' && c == 'e' {
        Some((46u8, 2usize))
    } else if a == 'i' && b == 'n' && c == 'g' {
        Some((44u8, 2usize))
    } else if a == 'o' && b == 'f' {
        Some((55u8, 1usize))
    } else if a == 'c' && b == 'h' {
        Some((33u8, 1usize))
    } else if a == 'g' && b == 'h' {
        Some((35u8, 1usize))
    } else if a == 's' && b == 'h' {
        Some((41u8, 1usize))
    } else if a == 't' && b == 'h' {
        Some((57u8, 1usize))
    } else if a == 'w' && b == 'h' {
        Some((49u8, 1usize))
    } else if a == 'e' && b == 'd' {
        Some((43u8, 1usize))
    } else if a == 'e' && b == 'r' {
        Some((59u8, 1usize))
    } else if a == 'o' && b == 'u' {
        Some((51u8, 1usize))
    } else if a == 'o' && b == 'w' {
        Some((42u8, 1usize))
    } else if a == 's' && b == 't' {
        Some((12u8, 1usize))
    } else if a == 'a' && b == 'r' {
        Some((28u8, 1usize))
    } else if a == 'e' && b == 'n' {
        Some((34u8, 1usize))
    } else if a == 'i' && b == 'n' {
        Some((20u8, 1usize))
    } else {
        None
    }
}

/// Computes `spec_rule_en_10_6`.
pub fn rule_en_10_6(w: &Vec<char>, i: usize) -> (r: Option<(u8, usize)>)
    ensures
        r == spec_rule_en_10_6(w@, i as int),
        r matches Some((_, k)) ==> i + k < w.len(),
{
    reveal(spec_rule_en_10_6);
    if i >= w.len() {
        proof {
            lemma_nothing_past_the_end(spec_groups_at_start(), w@, i as int, 0);
        }
        return None;
    }
    let a = lower_at(w, i, 0);
    let b = lower_at(w, i, 1);
    let c = lower_at(w, i, 2);
    proof {
        let t = spec_groups_at_start();
        reveal_with_fuel(spec_find_group, 5);
        assert(t[0].0 =~= seq!['c', 'o', 'n']);
        assert(spec_has_group_at(w@, i as int, t[0].0) == (
            a == 'c' && b == 'o' && c == 'n'
        )) by {
            let p = t[0].0;
            if a == 'c' && b == 'o' && c == 'n' {
                assert forall|k: int| 0 <= k < p.len() implies spec_lower_at(
                    w@,
                    i + k,
                ) == p[k] by {
                    assert(k == 0 || k == 1 || k == 2);
                }
            }
            if spec_has_group_at(w@, i as int, p) {
                assert(spec_lower_at(w@, i + 0) == p[0] &&
                    spec_lower_at(w@, i + 1) == p[1] &&
                    spec_lower_at(w@, i + 2) == p[2]);
            }
        }
        assert(t[1].0 =~= seq!['d', 'i', 's']);
        assert(spec_has_group_at(w@, i as int, t[1].0) == (
            a == 'd' && b == 'i' && c == 's'
        )) by {
            let p = t[1].0;
            if a == 'd' && b == 'i' && c == 's' {
                assert forall|k: int| 0 <= k < p.len() implies spec_lower_at(
                    w@,
                    i + k,
                ) == p[k] by {
                    assert(k == 0 || k == 1 || k == 2);
                }
            }
            if spec_has_group_at(w@, i as int, p) {
                assert(spec_lower_at(w@, i + 0) == p[0] &&
                    spec_lower_at(w@, i + 1) == p[1] &&
                    spec_lower_at(w@, i + 2) == p[2]);
            }
        }
        assert(t[2].0 =~= seq!['b', 'e']);
        assert(spec_has_group_at(w@, i as int, t[2].0) == (
            a == 'b' && b == 'e'
        )) by {
            let p = t[2].0;
            if a == 'b' && b == 'e' {
                assert forall|k: int| 0 <= k < p.len() implies spec_lower_at(
                    w@,
                    i + k,
                ) == p[k] by {
                    assert(k == 0 || k == 1);
                }
            }
            if spec_has_group_at(w@, i as int, p) {
                assert(spec_lower_at(w@, i + 0) == p[0] &&
                    spec_lower_at(w@, i + 1) == p[1]);
            }
        }
    }
    if a == 'c' && b == 'o' && c == 'n' {
        Some((18u8, 2usize))
    } else if a == 'd' && b == 'i' && c == 's' {
        Some((50u8, 2usize))
    } else if a == 'b' && b == 'e' {
        Some((6u8, 1usize))
    } else {
        None
    }
}

} // verus!
