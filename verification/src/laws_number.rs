//! Numbers: one number sign for a run of digits.

use vstd::prelude::*;
use crate::char_struct::{spec_classify, CharType};
use crate::error::EncodeError;
use crate::number::{spec_encode_number, NUMBER_SIGN};
use crate::state::Run;
use crate::step::{
    spec_arbitrate, spec_continues_number, spec_digit_cell, spec_number_step, spec_open_pending,
    spec_step, spec_walk,
};
use crate::utils::is_ascii_digit;

verus! {

/// The steps from `i` up to `j`, one after the other.
pub open spec fn spec_walk_until(
    r: Run,
    w: Seq<char>,
    i: int,
    j: int,
    rem: Seq<Seq<char>>,
) -> Result<
    Run,
    EncodeError,
>
    decreases j - i,
{
    if i < 0 || i >= j || i >= w.len() {
        Ok(r)
    } else {
        match spec_step(r, w, i, rem) {
            Err(e) => Err(e),
            Ok(r2) => spec_walk_until(r2, w, i + 1, j, rem),
        }
    }
}

/// A walk to the end of the word is a walk up to `j`, and from there a
/// walk to the end.
pub proof fn lemma_walk_in_two(r: Run, w: Seq<char>, i: int, j: int, rem: Seq<Seq<char>>)
    requires
        0 <= i <= j <= w.len(),
    ensures
        spec_walk(r, w, i, rem) == (match spec_walk_until(r, w, i, j, rem) {
            Err(e) => Err(e),
            Ok(r2) => spec_walk(r2, w, j, rem),
        }),
    decreases j - i,
{
    if i < j {
        if spec_step(r, w, i, rem) is Ok {
            lemma_walk_in_two(spec_step(r, w, i, rem)->Ok_0, w, i + 1, j, rem);
        }
    }
}

/// Whether the characters from `i` up to `j` are digits.
pub open spec fn spec_is_digit_run(w: Seq<char>, i: int, j: int) -> bool {
    &&& 0 <= i <= j <= w.len()
    &&& forall|k: int| i <= k < j ==> is_ascii_digit(#[trigger] w[k])
}

/// The cells of the digits from `i` up to `j`.
pub open spec fn spec_digits_between(w: Seq<char>, i: int, j: int) -> Seq<u8> {
    Seq::new((j - i) as nat, |k: int| spec_encode_number(w[i + k])->0)
}

/// A digit has a cell, and it is not the number sign.
pub proof fn lemma_digit_has_cell(c: char)
    requires
        is_ascii_digit(c),
    ensures
        spec_encode_number(c) is Some,
        spec_encode_number(c)->0 != NUMBER_SIGN,
        spec_digit_cell(c) == seq![spec_encode_number(c)->0],
{
    let u = c as u32;
    assert(u == 0x30 || u == 0x31 || u == 0x32 || u == 0x33 || u == 0x34 || u == 0x35 || u == 0x36
        || u == 0x37 || u == 0x38 || u == 0x39);
}

/// What a digit does to a run that passes over nothing: the step is the
/// step of a number, after an open Latin run was left in silence.
proof fn lemma_digit_step(r: Run, w: Seq<char>, i: int, rem: Seq<Seq<char>>)
    requires
        0 <= i < w.len(),
        is_ascii_digit(w[i]),
        r.skip == 0,
    ensures
        spec_step(r, w, i, rem) == spec_number_step(
            spec_arbitrate(r, CharType::Number(w[i]), w, i, rem),
            w[i],
            w,
            i,
        ),
        spec_arbitrate(r, CharType::Number(w[i]), w, i, rem).out == r.out,
        spec_arbitrate(r, CharType::Number(w[i]), w, i, rem).skip == r.skip,
        spec_arbitrate(r, CharType::Number(w[i]), w, i, rem).is_number == r.is_number,
{
    let c = w[i];
    assert(spec_classify(c) == Ok::<CharType, EncodeError>(CharType::Number(c)));
    assert(spec_open_pending(r, c, w, i, rem) == r);
}

/// Inside a number, digits are written one cell each, and nothing else.
proof fn lemma_digits_inside(r: Run, w: Seq<char>, i: int, j: int, rem: Seq<Seq<char>>)
    requires
        spec_is_digit_run(w, i, j),
        r.skip == 0,
        r.is_number,
        spec_walk_until(r, w, i, j, rem) is Ok,
    ensures
        spec_walk_until(r, w, i, j, rem)->Ok_0.out == r.out + spec_digits_between(w, i, j),
        spec_walk_until(r, w, i, j, rem)->Ok_0.is_number,
        spec_walk_until(r, w, i, j, rem)->Ok_0.skip == 0,
    decreases j - i,
{
    if i < j {
        lemma_digit_step(r, w, i, rem);
        lemma_digit_has_cell(w[i]);
        let r2 = spec_step(r, w, i, rem)->Ok_0;
        lemma_digits_inside(r2, w, i + 1, j, rem);
        assert(r.out + spec_digits_between(w, i, j) =~= r2.out + spec_digits_between(w, i + 1, j));
    } else {
        assert(r.out + spec_digits_between(w, i, j) =~= r.out);
    }
}

/// A run of digits is written as one number sign and one cell for each
/// digit, none of which is the number sign. After a full stop or a comma
/// the run goes on a number, and has no number sign. This holds of a run
/// that no slash follows right after its first digit: such a digit may
/// open a fraction.
pub proof fn lemma_one_number_sign(r: Run, w: Seq<char>, i: int, j: int, rem: Seq<Seq<char>>)
    requires
        spec_is_digit_run(w, i, j),
        i < j,
        !(i + 1 < w.len() && w[i + 1] == '/'),
        r.skip == 0,
        !r.is_number,
        spec_walk_until(r, w, i, j, rem) is Ok,
    ensures
        spec_walk_until(r, w, i, j, rem)->Ok_0.out == r.out + (if spec_continues_number(w, i) {
            Seq::empty()
        } else {
            seq![NUMBER_SIGN]
        }) + spec_digits_between(w, i, j),
        spec_walk_until(r, w, i, j, rem)->Ok_0.is_number,
        forall|k: int|
            0 <= k < spec_digits_between(w, i, j).len() ==> spec_digits_between(w, i, j)[k]
                != NUMBER_SIGN,
{
    lemma_digit_step(r, w, i, rem);
    lemma_digit_has_cell(w[i]);
    let r2 = spec_step(r, w, i, rem)->Ok_0;
    let sign = if spec_continues_number(w, i) {
        Seq::<u8>::empty()
    } else {
        seq![NUMBER_SIGN]
    };
    assert(crate::fraction::spec_find_inline_fraction(w, i) == Ok::<
        Option<(Seq<char>, Seq<char>, usize)>,
        EncodeError,
    >(None)) by {
        let found = crate::fraction::regex_captures(
            crate::fraction::spec_fraction_pattern(),
            w.subrange(i, w.len() as int),
        );
        if crate::fraction::spec_inline_fraction(found, w, i) is Some {
            let whole = found->0[0]->0;
            assert(whole[1] == '/');
            assert(w.subrange(i, i + 3)[1] == w[i + 1]);
        }
    }
    assert(r2.out == r.out + (sign + spec_digit_cell(w[i])));
    lemma_digits_inside(r2, w, i + 1, j, rem);
    assert(r.out + sign + spec_digits_between(w, i, j) =~= r2.out + spec_digits_between(
        w,
        i + 1,
        j,
    ));
    assert forall|k: int| 0 <= k < spec_digits_between(w, i, j).len() implies spec_digits_between(
        w,
        i,
        j,
    )[k] != NUMBER_SIGN by {
        lemma_digit_has_cell(w[i + k]);
    }
}

} // verus!
