//! Parentheses: a closing one is of the kind of the one that it closes.

use vstd::prelude::*;
use crate::char_struct::CharType;
use crate::english_logic::spec_should_render_symbol_as_english;
use crate::state::Run;
use crate::step::{spec_arbitrate, spec_open_pending, spec_paren, spec_step};

verus! {

/// The stack of open parentheses after the first `k` of the marks. Each
/// mark comes with the governor's answer for it.
pub open spec fn spec_paren_stack(stack: Seq<bool>, marks: Seq<(char, bool)>, k: int) -> Seq<bool>
    decreases k,
{
    if k <= 0 {
        stack
    } else {
        spec_paren(spec_paren_stack(stack, marks, k - 1), marks[k - 1].0, marks[k - 1].1).0
    }
}

/// Whether the mark at `k` is written in its Latin form, as far as the
/// stack decides.
pub open spec fn spec_paren_kind(stack: Seq<bool>, marks: Seq<(char, bool)>, k: int) -> bool {
    spec_paren(spec_paren_stack(stack, marks, k), marks[k].0, marks[k].1).1
}

/// Opening minus closing parentheses among the first `k` marks.
pub open spec fn spec_depth(marks: Seq<(char, bool)>, k: int) -> int
    decreases k,
{
    if k <= 0 {
        0
    } else {
        spec_depth(marks, k - 1) + if marks[k - 1].0 == '(' {
            1int
        } else if marks[k - 1].0 == ')' {
            -1int
        } else {
            0int
        }
    }
}

/// Whether the parenthesis at `j` closes the one at `i`: between them
/// every parenthesis that opens is closed, and none closes that was not
/// opened after `i`.
pub open spec fn spec_closes(marks: Seq<(char, bool)>, i: int, j: int) -> bool {
    &&& 0 <= i < j < marks.len()
    &&& marks[i].0 == '('
    &&& marks[j].0 == ')'
    &&& spec_depth(marks, j) == spec_depth(marks, i) + 1
    &&& forall|k: int| i < k <= j ==> spec_depth(marks, k) > spec_depth(marks, i)
}

/// Between an opening parenthesis and the one that closes it, the stack
/// keeps the answer that the opening one recorded.
proof fn lemma_answer_stays(stack: Seq<bool>, marks: Seq<(char, bool)>, i: int, j: int, k: int)
    requires
        spec_closes(marks, i, j),
        i < k <= j,
    ensures
        spec_paren_stack(stack, marks, k).len() == spec_paren_stack(stack, marks, i).len()
            + spec_depth(marks, k) - spec_depth(marks, i),
        spec_paren_stack(stack, marks, k)[spec_paren_stack(stack, marks, i).len() as int]
            == marks[i].1,
    decreases k,
{
    if k > i + 1 {
        lemma_answer_stays(stack, marks, i, j, k - 1);
        assert(spec_depth(marks, k) > spec_depth(marks, i));
        assert(spec_depth(marks, k - 1) > spec_depth(marks, i));
    }
}

/// A closing parenthesis is written in the form of the one that it
/// closes: both in the Latin form, or both in the Korean one.
pub proof fn lemma_parentheses_agree(stack: Seq<bool>, marks: Seq<(char, bool)>, i: int, j: int)
    requires
        spec_closes(marks, i, j),
    ensures
        spec_paren_kind(stack, marks, j) == spec_paren_kind(stack, marks, i),
        spec_paren_kind(stack, marks, i) == marks[i].1,
{
    lemma_answer_stays(stack, marks, i, j, j);
}

/// After a closing parenthesis the stack is what it was before the one
/// that it closes.
pub proof fn lemma_parentheses_restore(stack: Seq<bool>, marks: Seq<(char, bool)>, i: int, j: int)
    requires
        spec_closes(marks, i, j),
    ensures
        spec_paren_stack(stack, marks, j + 1) == spec_paren_stack(stack, marks, i),
    decreases j - i,
{
    lemma_prefix_stays(stack, marks, i, j, j);
    let before = spec_paren_stack(stack, marks, i);
    let at = spec_paren_stack(stack, marks, j);
    lemma_answer_stays(stack, marks, i, j, j);
    assert(at.drop_last() =~= before);
}

/// Between an opening parenthesis and the one that closes it, the stack
/// keeps what it held before.
proof fn lemma_prefix_stays(stack: Seq<bool>, marks: Seq<(char, bool)>, i: int, j: int, k: int)
    requires
        spec_closes(marks, i, j),
        i < k <= j,
    ensures
        spec_paren_stack(stack, marks, k).len() >= spec_paren_stack(stack, marks, i).len(),
        spec_paren_stack(stack, marks, k).take(spec_paren_stack(stack, marks, i).len() as int)
            == spec_paren_stack(stack, marks, i),
    decreases k,
{
    let base = spec_paren_stack(stack, marks, i);
    if k > i + 1 {
        lemma_prefix_stays(stack, marks, i, j, k - 1);
        lemma_answer_stays(stack, marks, i, j, k - 1);
        assert(spec_depth(marks, k) > spec_depth(marks, i));
        assert(spec_depth(marks, k - 1) > spec_depth(marks, i));
        let prev = spec_paren_stack(stack, marks, k - 1);
        let cur = spec_paren_stack(stack, marks, k);
        assert(cur.take(base.len() as int) =~= prev.take(base.len() as int));
    } else {
        assert(spec_paren_stack(stack, marks, k).take(base.len() as int) =~= base);
    }
}


/// The governor's answer for the mark at `i`, at the moment the step
/// reaches it.
pub open spec fn spec_answer_at(r: Run, w: Seq<char>, i: int, rem: Seq<Seq<char>>) -> bool {
    let at = spec_arbitrate(spec_open_pending(r, w[i], w, i, rem), CharType::Symbol(w[i]), w, i, rem);
    spec_should_render_symbol_as_english(
        at.state.english_indicator,
        at.state.is_english,
        at.state.parenthesis_stack,
        w[i],
        w,
        i,
        rem,
    )
}

/// A step changes the stack of open parentheses at a parenthesis, as
/// `spec_paren` says, and nowhere else.
pub proof fn lemma_step_and_stack(r: Run, w: Seq<char>, i: int, rem: Seq<Seq<char>>)
    requires
        0 <= i < w.len(),
        spec_step(r, w, i, rem) is Ok,
    ensures
        spec_step(r, w, i, rem)->Ok_0.state.parenthesis_stack == (if r.skip <= 0 && (w[i] == '('
            || w[i] == ')') {
            spec_paren(r.state.parenthesis_stack, w[i], spec_answer_at(r, w, i, rem)).0
        } else {
            r.state.parenthesis_stack
        }),
{
}

} // verus!
