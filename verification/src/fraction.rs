//! Fractions: the vulgar-fraction characters, `\frac` between dollar signs,
//! and `a/b` inside a word.

use vstd::prelude::*;
use crate::error::EncodeError;
use crate::number::{encode_number, spec_encode_number, NUMBER_SIGN};
use crate::text::{append_cells, copy_range};
use crate::utils::is_ascii_digit;

verus! {

/// The cell between denominator and numerator of a fraction.
pub const FRACTION_LINE: u8 = 12;

/// The first of the two cells of the slash of a fraction written in line.
pub const SLASH_LEAD: u8 = 56;

/// `r` holds the cells `want`, or the error that `want` is.
pub open spec fn cells_res(
    r: Result<Vec<u8>, EncodeError>,
    want: Result<Seq<u8>, EncodeError>,
) -> bool {
    match want {
        Ok(s) => r matches Ok(v) && v@ =~= s,
        Err(e) => r matches Err(got) && got == e,
    }
}

/// Numerator and denominator of a vulgar-fraction character, as digits.
pub open spec fn spec_parse_unicode_fraction(c: char) -> Option<(Seq<char>, Seq<char>)> {
    match c {
        '½' => Some((seq!['1'], seq!['2'])),
        '⅓' => Some((seq!['1'], seq!['3'])),
        '⅔' => Some((seq!['2'], seq!['3'])),
        '¼' => Some((seq!['1'], seq!['4'])),
        '¾' => Some((seq!['3'], seq!['4'])),
        '⅕' => Some((seq!['1'], seq!['5'])),
        '⅖' => Some((seq!['2'], seq!['5'])),
        '⅗' => Some((seq!['3'], seq!['5'])),
        '⅘' => Some((seq!['4'], seq!['5'])),
        '⅙' => Some((seq!['1'], seq!['6'])),
        '⅚' => Some((seq!['5'], seq!['6'])),
        '⅐' => Some((seq!['1'], seq!['7'])),
        '⅛' => Some((seq!['1'], seq!['8'])),
        '⅜' => Some((seq!['3'], seq!['8'])),
        '⅝' => Some((seq!['5'], seq!['8'])),
        '⅞' => Some((seq!['7'], seq!['8'])),
        '⅑' => Some((seq!['1'], seq!['9'])),
        '⅒' => Some((seq!['1'], seq!['1', '0'])),
        _ => None,
    }
}

/// Whether `c` is a vulgar-fraction character.
pub open spec fn spec_is_unicode_fraction(c: char) -> bool {
    spec_parse_unicode_fraction(c) is Some
}

/// Computes `spec_is_unicode_fraction`.
#[verifier::when_used_as_spec(spec_is_unicode_fraction)]
pub fn is_unicode_fraction(c: char) -> (b: bool)
    ensures
        b == spec_is_unicode_fraction(c),
{
    match c {
        '½' => true,
        '⅓' => true,
        '⅔' => true,
        '¼' => true,
        '¾' => true,
        '⅕' => true,
        '⅖' => true,
        '⅗' => true,
        '⅘' => true,
        '⅙' => true,
        '⅚' => true,
        '⅐' => true,
        '⅛' => true,
        '⅜' => true,
        '⅝' => true,
        '⅞' => true,
        '⅑' => true,
        '⅒' => true,
        _ => false,
    }
}

/// Computes `spec_parse_unicode_fraction`.
pub fn parse_unicode_fraction(c: char) -> (r: Option<(Vec<char>, Vec<char>)>)
    ensures
        match spec_parse_unicode_fraction(c) {
            Some((n, d)) => r matches Some((rn, rd)) && rn@ =~= n && rd@ =~= d,
            None => r is None,
        },
{
    match c {
        '½' => Some((vec!['1'], vec!['2'])),
        '⅓' => Some((vec!['1'], vec!['3'])),
        '⅔' => Some((vec!['2'], vec!['3'])),
        '¼' => Some((vec!['1'], vec!['4'])),
        '¾' => Some((vec!['3'], vec!['4'])),
        '⅕' => Some((vec!['1'], vec!['5'])),
        '⅖' => Some((vec!['2'], vec!['5'])),
        '⅗' => Some((vec!['3'], vec!['5'])),
        '⅘' => Some((vec!['4'], vec!['5'])),
        '⅙' => Some((vec!['1'], vec!['6'])),
        '⅚' => Some((vec!['5'], vec!['6'])),
        '⅐' => Some((vec!['1'], vec!['7'])),
        '⅛' => Some((vec!['1'], vec!['8'])),
        '⅜' => Some((vec!['3'], vec!['8'])),
        '⅝' => Some((vec!['5'], vec!['8'])),
        '⅞' => Some((vec!['7'], vec!['8'])),
        '⅑' => Some((vec!['1'], vec!['9'])),
        '⅒' => Some((vec!['1'], vec!['1', '0'])),
        _ => None,
    }
}

/// The cells of a run of digits, without a number sign. The first
/// character that is no digit is the error.
pub open spec fn spec_digit_cells(s: Seq<char>) -> Result<Seq<u8>, EncodeError>
    decreases s.len(),
{
    if s.len() == 0 {
        Ok(Seq::empty())
    } else {
        match spec_digit_cells(s.drop_last()) {
            Err(e) => Err(e),
            Ok(cells) => match spec_encode_number(s.last()) {
                Some(b) => Ok(cells.push(b)),
                None => Err(EncodeError::UnknownCharacter(s.last())),
            },
        }
    }
}

/// Appends a number sign and the cells of the digits `s` to `out`.
fn push_number(out: &mut Vec<u8>, s: &Vec<char>) -> (r: Result<(), EncodeError>)
    ensures
        match spec_digit_cells(s@) {
            Ok(cells) => r is Ok && final(out)@ == old(out)@.push(NUMBER_SIGN) + cells,
            Err(e) => r == Err::<(), EncodeError>(e),
        },
{
    out.push(NUMBER_SIGN);
    let mut i: usize = 0;
    while i < s.len()
        invariant
            i <= s.len(),
            spec_digit_cells(s@.take(i as int)) matches Ok(cells) && out@ == old(out)@.push(
                NUMBER_SIGN,
            ) + cells,
        decreases s.len() - i,
    {
        assert(s@.take(i + 1).drop_last() =~= s@.take(i as int));
        match encode_number(s[i]) {
            Some(b) => {
                out.push(b);
            },
            None => {
                proof {
                    lemma_digit_cells_error(s@, i + 1);
                }
                return Err(EncodeError::UnknownCharacter(s[i]));
            },
        }
        i += 1;
    }
    assert(s@.take(s.len() as int) =~= s@);
    Ok(())
}

/// An error among the first `n` digits is the error of the whole run.
proof fn lemma_digit_cells_error(s: Seq<char>, n: int)
    requires
        0 <= n <= s.len(),
        spec_digit_cells(s.take(n)) is Err,
    ensures
        spec_digit_cells(s) == spec_digit_cells(s.take(n)),
    decreases s.len() - n,
{
    if n < s.len() {
        assert(s.take(n + 1).drop_last() =~= s.take(n));
        lemma_digit_cells_error(s, n + 1);
    } else {
        assert(s.take(n) =~= s);
    }
}

/// A fraction on its own: number sign and denominator, the fraction line,
/// number sign and numerator.
pub open spec fn spec_encode_fraction(num: Seq<char>, den: Seq<char>) -> Result<
    Seq<u8>,
    EncodeError,
> {
    match spec_digit_cells(den) {
        Err(e) => Err(e),
        Ok(d) => match spec_digit_cells(num) {
            Err(e) => Err(e),
            Ok(n) => Ok(seq![NUMBER_SIGN] + d + seq![FRACTION_LINE, NUMBER_SIGN] + n),
        },
    }
}

/// Computes `spec_encode_fraction`.
pub fn encode_fraction(num: &Vec<char>, den: &Vec<char>) -> (r: Result<Vec<u8>, EncodeError>)
    ensures
        cells_res(r, spec_encode_fraction(num@, den@)),
{
    let mut out: Vec<u8> = Vec::new();
    push_number(&mut out, den)?;
    out.push(FRACTION_LINE);
    push_number(&mut out, num)?;
    Ok(out)
}

/// A mixed number: number sign and whole part, then the fraction.
pub open spec fn spec_encode_mixed_fraction(
    whole: Seq<char>,
    num: Seq<char>,
    den: Seq<char>,
) -> Result<Seq<u8>, EncodeError> {
    match spec_digit_cells(whole) {
        Err(e) => Err(e),
        Ok(w) => match spec_encode_fraction(num, den) {
            Err(e) => Err(e),
            Ok(f) => Ok(seq![NUMBER_SIGN] + w + f),
        },
    }
}

/// Computes `spec_encode_mixed_fraction`.
pub fn encode_mixed_fraction(whole: &Vec<char>, num: &Vec<char>, den: &Vec<char>) -> (r: Result<
    Vec<u8>,
    EncodeError,
>)
    ensures
        cells_res(r, spec_encode_mixed_fraction(whole@, num@, den@)),
{
    let mut out: Vec<u8> = Vec::new();
    push_number(&mut out, whole)?;
    let fraction = encode_fraction(num, den)?;
    append_cells(&mut out, &fraction);
    Ok(out)
}

/// A fraction written in line as `a/b`: number sign and numerator, the
/// slash, number sign and denominator.
pub open spec fn spec_encode_fraction_in_context(num: Seq<char>, den: Seq<char>) -> Result<
    Seq<u8>,
    EncodeError,
> {
    match spec_digit_cells(num) {
        Err(e) => Err(e),
        Ok(n) => match spec_digit_cells(den) {
            Err(e) => Err(e),
            Ok(d) => Ok(
                seq![NUMBER_SIGN] + n + seq![SLASH_LEAD, FRACTION_LINE, NUMBER_SIGN] + d,
            ),
        },
    }
}

/// Computes `spec_encode_fraction_in_context`.
pub fn encode_fraction_in_context(num: &Vec<char>, den: &Vec<char>) -> (r: Result<
    Vec<u8>,
    EncodeError,
>)
    ensures
        cells_res(r, spec_encode_fraction_in_context(num@, den@)),
{
    let mut out: Vec<u8> = Vec::new();
    push_number(&mut out, num)?;
    out.push(SLASH_LEAD);
    out.push(FRACTION_LINE);
    push_number(&mut out, den)?;
    Ok(out)
}

/// Where the run of digits that starts at `i` ends.
pub open spec fn spec_digit_run(w: Seq<char>, i: int) -> int
    decreases w.len() - i,
{
    if 0 <= i < w.len() && is_ascii_digit(w[i]) {
        spec_digit_run(w, i + 1)
    } else {
        i
    }
}

/// A run of digits ends inside the word.
pub proof fn lemma_digit_run_bounds(w: Seq<char>, i: int)
    requires
        0 <= i <= w.len(),
    ensures
        i <= spec_digit_run(w, i) <= w.len(),
    decreases w.len() - i,
{
    if i < w.len() && is_ascii_digit(w[i]) {
        lemma_digit_run_bounds(w, i + 1);
    }
}

fn digit_run(w: &Vec<char>, i: usize) -> (j: usize)
    requires
        i <= w.len(),
    ensures
        j == spec_digit_run(w@, i as int),
        i <= j <= w.len(),
{
    let mut j: usize = i;
    while j < w.len() && is_ascii_digit(w[j])
        invariant
            i <= j <= w.len(),
            spec_digit_run(w@, j as int) == spec_digit_run(w@, i as int),
        decreases w.len() - j,
    {
        j += 1;
    }
    j
}

/// Whether `lit` stands in `w` at `i`.
pub open spec fn spec_has_at(w: Seq<char>, i: int, lit: Seq<char>) -> bool {
    0 <= i && i + lit.len() <= w.len() && w.subrange(i, i + lit.len()) == lit
}

/// A word of the form `$` digits `\frac{` digits `}{` digits `}$` as whole
/// part, numerator and denominator. The whole part may be missing; the
/// other two hold a digit at least. Any other word is no fraction.
pub open spec fn spec_parse_latex_fraction(w: Seq<char>) -> Option<
    (Option<Seq<char>>, Seq<char>, Seq<char>),
> {
    let a = spec_digit_run(w, 1);
    let b = spec_digit_run(w, a + 6);
    let c = spec_digit_run(w, b + 2);
    if w.len() >= 1 && w[0] == '$' && spec_has_at(w, a, seq!['\\', 'f', 'r', 'a', 'c', '{']) && b
        > a + 6 && spec_has_at(w, b, seq!['}', '{']) && c > b + 2 && spec_has_at(
        w,
        c,
        seq!['}', '$'],
    ) && c + 2 == w.len() {
        Some(
            (
                if a > 1 {
                    Some(w.subrange(1, a))
                } else {
                    None
                },
                w.subrange(a + 6, b),
                w.subrange(b + 2, c),
            ),
        )
    } else {
        None
    }
}

/// The parts of a parsed fraction as their characters.
pub open spec fn latex_view(r: Option<(Option<Vec<char>>, Vec<char>, Vec<char>)>) -> Option<
    (Option<Seq<char>>, Seq<char>, Seq<char>),
> {
    match r {
        Some((whole, num, den)) => Some(
            (
                match whole {
                    Some(x) => Some(x@),
                    None => None,
                },
                num@,
                den@,
            ),
        ),
        None => None,
    }
}

/// Numerator, denominator and length of a fraction found in line, as
/// their characters.
pub open spec fn inline_view(r: Option<(Vec<char>, Vec<char>, usize)>) -> Option<
    (Seq<char>, Seq<char>, usize),
> {
    match r {
        Some((num, den, k)) => Some((num@, den@, k)),
        None => None,
    }
}

/// Computes `spec_parse_latex_fraction`.
pub fn parse_latex_fraction(w: &Vec<char>) -> (r: Option<(Option<Vec<char>>, Vec<char>, Vec<char>)>)
    ensures
        latex_view(r) == spec_parse_latex_fraction(w@),
{
    let n = w.len();
    if n < 1 || w[0] != '$' {
        return None;
    }
    let a = digit_run(w, 1);
    if n - a < 6 || w[a] != '\\' || w[a + 1] != 'f' || w[a + 2] != 'r' || w[a + 3] != 'a' || w[a
        + 4] != 'c' || w[a + 5] != '{' {
        proof {
            let lit = seq!['\\', 'f', 'r', 'a', 'c', '{'];
            if spec_has_at(w@, a as int, lit) {
                let got = w@.subrange(a as int, a + 6);
                assert(got[0] == lit[0] && got[1] == lit[1] && got[2] == lit[2] && got[3] == lit[3]
                    && got[4] == lit[4] && got[5] == lit[5]);
            }
        }
        return None;
    }
    assert(w@.subrange(a as int, a + 6) =~= seq!['\\', 'f', 'r', 'a', 'c', '{']);
    let b = digit_run(w, a + 6);
    if b == a + 6 || n - b < 2 || w[b] != '}' || w[b + 1] != '{' {
        proof {
            let lit = seq!['}', '{'];
            if spec_has_at(w@, b as int, lit) {
                let got = w@.subrange(b as int, b + 2);
                assert(got[0] == lit[0] && got[1] == lit[1]);
            }
        }
        return None;
    }
    assert(w@.subrange(b as int, b + 2) =~= seq!['}', '{']);
    let c = digit_run(w, b + 2);
    if c == b + 2 || n - c != 2 || w[c] != '}' || w[c + 1] != '$' {
        proof {
            let lit = seq!['}', '$'];
            if spec_has_at(w@, c as int, lit) {
                let got = w@.subrange(c as int, c + 2);
                assert(got[0] == lit[0] && got[1] == lit[1]);
            }
        }
        return None;
    }
    assert(w@.subrange(c as int, c + 2) =~= seq!['}', '$']);
    let whole = if a > 1 {
        Some(copy_range(w, 1, a))
    } else {
        None
    };
    let num = copy_range(w, a + 6, b);
    let den = copy_range(w, b + 2, c);
    Some((whole, num, den))
}

/// The pattern of a fraction written in line: digits, a slash, digits, at
/// the start of what is left of the word.
pub open spec fn spec_fraction_pattern() -> Seq<char> {
    "^(\\d+)\\/(\\d+)"@
}

/// The pattern of a fraction written in line, as the pattern engine reads it.
pub fn fraction_pattern() -> (p: &'static str)
    ensures
        p@ == spec_fraction_pattern(),
{
    "^(\\d+)\\/(\\d+)"
}

/// Whether the pattern engine accepts `pattern`.
pub uninterp spec fn regex_compiles(pattern: Seq<char>) -> bool;

/// What the pattern engine finds for `pattern` in `haystack`: nothing, or
/// the text of each group, the whole match first, with `None` for a group
/// that took no part.
pub uninterp spec fn regex_captures(pattern: Seq<char>, haystack: Seq<char>) -> Option<
    Seq<Option<Seq<char>>>,
>;

/// `regex::Error`: why the pattern engine refused a pattern. Nothing of
/// it is read here.
#[verifier::external_type_specification]
#[verifier::external_body]
pub struct ExRegexError(regex::Error);

/// `regex::Regex::new` on `pattern`, then `regex::Regex::captures` on
/// `haystack`. The contract only names what they return: it fails exactly
/// when the engine refuses the pattern, and else hands out the groups that
/// the engine found, as characters. Nothing is claimed of which text
/// matches.
#[verifier::external_body]
fn captures(pattern: &str, haystack: &Vec<char>) -> (r: Result<
    Option<Vec<Option<Vec<char>>>>,
    regex::Error,
>)
    ensures
        r is Ok <==> regex_compiles(pattern@),
        r matches Ok(found) ==> found.deep_view() == regex_captures(pattern@, haystack@),
{
    let re = regex::Regex::new(pattern)?;
    let text: String = haystack.iter().collect();
    let groups = re.captures(&text);
    Ok(groups.map(|c| c.iter().map(|m| m.map(|m| m.as_str().chars().collect())).collect()))
}

/// The fraction that the groups `found` describe at `i` in `w`, as
/// numerator, denominator and the number of characters after the first
/// that belong to it. There is one where the groups are the whole match, a
/// numerator and a denominator of one digit each, the match stands in `w`
/// at `i`, and what follows it is neither a slash nor a tilde: two digits
/// on either side, or a following slash or tilde, mean a date or a range.
pub open spec fn spec_inline_fraction(
    found: Option<Seq<Option<Seq<char>>>>,
    w: Seq<char>,
    i: int,
) -> Option<(Seq<char>, Seq<char>, usize)> {
    match found {
        Some(g) => {
            if g.len() == 3 && g[0] is Some && g[1] is Some && g[2] is Some {
                let whole = g[0]->0;
                let num = g[1]->0;
                let den = g[2]->0;
                let k = i + whole.len();
                if num.len() == 1 && is_ascii_digit(num[0]) && den.len() == 1 && is_ascii_digit(
                    den[0],
                ) && whole == seq![num[0], '/', den[0]] && spec_has_at(w, i, whole) && !(k
                    < w.len() && (w[k] == '/' || w[k] == '~')) {
                    Some((num, den, 2usize))
                } else {
                    None
                }
            } else {
                None
            }
        },
        None => None,
    }
}

/// Decides from the groups that the pattern engine found whether a
/// fraction stands at `i` in `w`.
pub fn inline_fraction(found: &Option<Vec<Option<Vec<char>>>>, w: &Vec<char>, i: usize) -> (r:
    Option<(Vec<char>, Vec<char>, usize)>)
    ensures
        inline_view(r) == spec_inline_fraction(found.deep_view(), w@, i as int),
{
    let g = match found {
        Some(g) => g,
        None => {
            return None;
        },
    };
    if g.len() != 3 {
        return None;
    }
    assert(found.deep_view()->0[0] == g@[0].deep_view());
    assert(found.deep_view()->0[1] == g@[1].deep_view());
    assert(found.deep_view()->0[2] == g@[2].deep_view());
    let whole = match &g[0] {
        Some(x) => x,
        None => {
            return None;
        },
    };
    let num = match &g[1] {
        Some(x) => x,
        None => {
            return None;
        },
    };
    let den = match &g[2] {
        Some(x) => x,
        None => {
            return None;
        },
    };
    assert(whole.deep_view() =~= whole@);
    assert(num.deep_view() =~= num@);
    assert(den.deep_view() =~= den@);
    if num.len() != 1 || den.len() != 1 || whole.len() != 3 {
        return None;
    }
    if !is_ascii_digit(num[0]) || !is_ascii_digit(den[0]) {
        return None;
    }
    if whole[0] != num[0] || whole[1] != '/' || whole[2] != den[0] {
        proof {
            let lit = seq![num@[0], '/', den@[0]];
            if whole@ == lit {
                assert(whole@[0] == lit[0] && whole@[1] == lit[1] && whole@[2] == lit[2]);
            }
        }
        return None;
    }
    assert(whole@ =~= seq![num@[0], '/', den@[0]]);
    if i > w.len() || w.len() - i < 3 || w[i] != whole[0] || w[i + 1] != whole[1] || w[i + 2]
        != whole[2] {
        proof {
            if spec_has_at(w@, i as int, whole@) {
                let got = w@.subrange(i as int, i + 3);
                assert(got[0] == whole@[0] && got[1] == whole@[1] && got[2] == whole@[2]);
            }
        }
        return None;
    }
    assert(w@.subrange(i as int, i + 3) =~= whole@);
    if w.len() - i > 3 && (w[i + 3] == '/' || w[i + 3] == '~') {
        return None;
    }
    let ghost want = spec_inline_fraction(found.deep_view(), w@, i as int);
    let n = copy_range(num, 0, 1);
    let d = copy_range(den, 0, 1);
    assert(n@ =~= num@);
    assert(d@ =~= den@);
    Some((n, d, 2))
}

/// Looks for a fraction at `i` in `w`. The pattern engine is asked for the
/// rest of the word, and `inline_fraction` decides on what it found.
pub open spec fn spec_find_inline_fraction(w: Seq<char>, i: int) -> Result<
    Option<(Seq<char>, Seq<char>, usize)>,
    EncodeError,
> {
    if regex_compiles(spec_fraction_pattern()) {
        Ok(
            spec_inline_fraction(
                regex_captures(spec_fraction_pattern(), w.subrange(i, w.len() as int)),
                w,
                i,
            ),
        )
    } else {
        Err(EncodeError::BadPattern)
    }
}

pub(crate) fn find_inline_fraction(w: &Vec<char>, i: usize) -> (r: Result<
    Option<(Vec<char>, Vec<char>, usize)>,
    EncodeError,
>)
    requires
        i <= w.len(),
    ensures
        match spec_find_inline_fraction(w@, i as int) {
            Ok(want) => r matches Ok(got) && inline_view(got) == want,
            Err(e) => r matches Err(got) && got == e,
        },
{
    let rest = copy_range(w, i, w.len());
    fraction_from_captures(&captures(fraction_pattern(), &rest), w, i)
}

/// Decides on what the pattern engine handed back: a pattern that it
/// refused is an error, and groups that it found are judged by
/// `inline_fraction`.
pub fn fraction_from_captures(
    result: &Result<Option<Vec<Option<Vec<char>>>>, regex::Error>,
    w: &Vec<char>,
    i: usize,
) -> (r: Result<Option<(Vec<char>, Vec<char>, usize)>, EncodeError>)
    ensures
        match result {
            Ok(found) => r matches Ok(got) && inline_view(got) == spec_inline_fraction(
                found.deep_view(),
                w@,
                i as int,
            ),
            Err(_) => r matches Err(e) && e == EncodeError::BadPattern,
        },
{
    match result {
        Ok(found) => Ok(inline_fraction(found, w, i)),
        Err(_) => Err(EncodeError::BadPattern),
    }
}

} // verus!
