//! A word from its first character to the space after it, and a text word
//! by word.

use vstd::prelude::*;
use crate::char_struct::{spec_classify, CharType};
use crate::english_logic::{
    is_english_symbol, requires_single_letter_continuation, should_force_terminator_before_symbol,
    should_request_continuation, should_skip_terminator_for_symbol,
};
use crate::error::EncodeError;
use crate::fraction::{
    encode_fraction, encode_mixed_fraction, parse_latex_fraction, spec_encode_fraction,
    spec_encode_mixed_fraction, spec_parse_latex_fraction,
};
use crate::state::{
    emit, run_of, spec_enter, spec_exit_state, Encoder, EncoderState, Run, WordFlags, CAPITAL,
    ENGLISH_CLOSE, PHRASE_END,
};
use crate::step::{rest_of, spec_walk, spec_word_stats, word_stats, WordStats};
use crate::text::{
    append_cells, copy_range, normalize, spec_normalize, spec_shorten_ellipses_from,
    spec_shorten_stops_from, spec_words, spec_words_from, split_words, words_view,
};
use crate::unicode::SPACE;
use crate::utils::is_ascii_alphabetic;
use crate::word_shortcut::{spec_split_word_shortcut, split_word_shortcut};
use crate::word_stats::{
    all_letters, has_letter, is_single_letter_word, letters, spec_all_letters, spec_first_letter,
    spec_has_letter, spec_is_single_letter_word,
};

verus! {

/// An encoder and the cells it has written.
#[verifier::ext_equal]
pub struct Progress {
    pub state: EncoderState,
    pub out: Seq<u8>,
}

/// The progress that the encoder and the cells make up.
pub open spec fn progress_of(e: &Encoder, out: &Vec<u8>) -> Progress {
    Progress { state: e@, out: out@ }
}

/// The characters of all the words together.
pub open spec fn spec_total_len(ws: Seq<Seq<char>>) -> nat
    decreases ws.len(),
{
    if ws.len() == 0 {
        0
    } else {
        ws[0].len() + spec_total_len(ws.skip(1))
    }
}

/// The words of a text hold no more characters than the text.
pub proof fn lemma_words_total(s: Seq<char>, i: int)
    requires
        0 <= i <= s.len(),
    ensures
        spec_total_len(spec_words_from(s, i)) <= s.len() - i,
    decreases s.len() - i,
{
    if i < s.len() {
        if s[i] == ' ' {
            lemma_words_total(s, i + 1);
        } else {
            let j = crate::text::spec_word_end(s, i + 1);
            crate::text::lemma_word_end_bounds(s, i + 1);
            lemma_words_total(s, j);
            let ws = seq![s.subrange(i, j)] + spec_words_from(s, j);
            assert(ws.skip(1) =~= spec_words_from(s, j));
        }
    }
}

/// A word is no longer than all the words together.
pub proof fn lemma_word_in_total(ws: Seq<Seq<char>>, k: int)
    requires
        0 <= k < ws.len(),
    ensures
        ws[k].len() <= spec_total_len(ws),
    decreases k,
{
    if k > 0 {
        lemma_word_in_total(ws.skip(1), k - 1);
    }
}

proof fn lemma_shorten_stops_len(s: Seq<char>, i: int)
    requires
        0 <= i <= s.len(),
    ensures
        spec_shorten_stops_from(s, i).len() <= s.len() - i,
    decreases s.len() - i,
{
    if i < s.len() {
        if i + 6 <= s.len() && s.subrange(i, i + 6) == seq!['.', '.', '.', '.', '.', '.'] {
            lemma_shorten_stops_len(s, i + 6);
        } else {
            lemma_shorten_stops_len(s, i + 1);
        }
    }
}

proof fn lemma_shorten_ellipses_len(s: Seq<char>, i: int)
    requires
        0 <= i <= s.len(),
    ensures
        spec_shorten_ellipses_from(s, i).len() <= s.len() - i,
    decreases s.len() - i,
{
    if i < s.len() {
        if i + 2 <= s.len() && s[i] == '…' && s[i + 1] == '…' {
            lemma_shorten_ellipses_len(s, i + 2);
        } else {
            lemma_shorten_ellipses_len(s, i + 1);
        }
    }
}

/// The short form of a word is no longer than the word.
pub proof fn lemma_normalize_len(s: Seq<char>)
    ensures
        spec_normalize(s).len() <= s.len(),
{
    lemma_shorten_stops_len(s, 0);
    lemma_shorten_ellipses_len(spec_shorten_stops_from(s, 0), 0);
}

/// The cells of a word that is a fraction between dollar signs; `None`
/// for any other word.
pub open spec fn spec_latex_cells(w: Seq<char>) -> Option<Result<Seq<u8>, EncodeError>> {
    match spec_parse_latex_fraction(w) {
        Some((Some(whole), num, den)) => Some(spec_encode_mixed_fraction(whole, num, den)),
        Some((None, num, den)) => Some(spec_encode_fraction(num, den)),
        None => None,
    }
}

/// The run at the first character of the word `w`, after the word `prev`
/// and before the words `rem`.
///
/// Where the text marks its Latin runs, none is open and the word holds a
/// Latin letter, a run is waiting; it is opened at once where the word
/// starts with the letter. A word in capitals that starts with a letter,
/// outside a phrase in capitals, opens a phrase where it is the first word
/// or follows a word that is not all letters, and the next two words are
/// all letters; else it gets the sign of a word in capitals.
pub open spec fn spec_word_start(
    p: Progress,
    skip: int,
    w: Seq<char>,
    prev: Seq<char>,
    rem: Seq<Seq<char>>,
) -> Run {
    let pending = p.state.english_indicator && !p.state.is_english && spec_has_letter(w);
    let r0 = Run {
        state: p.state,
        pending,
        is_number: false,
        is_big_english: false,
        skip,
        out: p.out,
    };
    let r1 = if pending && is_ascii_alphabetic(w[0]) {
        Run { pending: false, ..spec_enter(r0) }
    } else {
        r0
    };
    let stats = spec_word_stats(w);
    if stats.all_upper && !r1.state.triple_big_english && stats.starts_with_letter {
        if (!r1.state.has_processed_word || !spec_all_letters(prev)) && rem.len() >= 2
            && spec_all_letters(rem[0]) && spec_all_letters(rem[1]) {
            Run {
                state: EncoderState { triple_big_english: true, ..r1.state },
                ..emit(r1, seq![CAPITAL, CAPITAL, CAPITAL])
            }
        } else if w.len() >= 2 {
            emit(r1, seq![CAPITAL, CAPITAL])
        } else {
            r1
        }
    } else {
        r1
    }
}

/// How an open Latin run goes on or ends before the word `next`.
///
/// Before a word of one letter that stands for a whole word, the run ends
/// in silence and the continuation sign is owed. Else the first character
/// of `next` decides: a letter or a digit keeps the run, and so does a
/// mark that has a Latin form; any other mark ends it as it would inside a
/// word; anything else ends it with the closing sign.
pub open spec fn spec_next_word_boundary(p: Progress, next: Seq<char>) -> Progress {
    let close = Progress {
        state: spec_exit_state(p.state, false),
        out: p.out.push(ENGLISH_CLOSE),
    };
    if spec_is_single_letter_word(next) && requires_single_letter_continuation(
        spec_first_letter(next),
    ) {
        Progress { state: spec_exit_state(p.state, true), ..p }
    } else if next.len() > 0 {
        match spec_classify(next[0]) {
            Ok(CharType::English(_)) => p,
            Ok(CharType::Number(_)) => p,
            Ok(CharType::Symbol(sym)) => {
                if is_english_symbol(sym) {
                    p
                } else if should_force_terminator_before_symbol(sym) {
                    close
                } else if !should_skip_terminator_for_symbol(sym) {
                    close
                } else {
                    Progress {
                        state: spec_exit_state(p.state, should_request_continuation(sym)),
                        ..p
                    }
                }
            },
            _ => close,
        }
    } else {
        p
    }
}

/// The end of a word before the words `rem`.
///
/// A phrase in capitals is closed unless the next word is all letters.
/// Before another word, an open Latin run is settled against it and the
/// space between the words is written. The encoder has then seen a word.
pub open spec fn spec_word_tail(p: Progress, rem: Seq<Seq<char>>) -> Progress {
    let pa = if p.state.triple_big_english && !(rem.len() > 0 && spec_all_letters(rem[0])) {
        Progress {
            state: EncoderState { triple_big_english: false, ..p.state },
            out: p.out + seq![CAPITAL, PHRASE_END],
        }
    } else {
        p
    };
    let pb = if rem.len() > 0 {
        let q = if pa.state.english_indicator && pa.state.is_english {
            spec_next_word_boundary(pa, rem[0])
        } else {
            pa
        };
        Progress { out: q.out.push(SPACE), ..q }
    } else {
        pa
    };
    Progress { state: EncoderState { has_processed_word: true, ..pb.state }, ..pb }
}

/// What the word `word` writes and leaves behind, after the word `prev`
/// and before the words `rem`, with `skip` characters to pass over at its
/// start.
///
/// The word is taken in its short form. A fraction between dollar signs is
/// written as such, and nothing else happens. A word that opens with an
/// abbreviated word is the cells of the abbreviation and then the rest,
/// encoded as a text of its own. Any other word is walked through
/// character by character. The end of the word follows in both cases.
pub open spec fn spec_encode_word(
    p: Progress,
    skip: int,
    word: Seq<char>,
    prev: Seq<char>,
    rem: Seq<Seq<char>>,
) -> Result<(Progress, int), EncodeError>
    decreases word.len(), 0int,
{
    let w = spec_normalize(word);
    match spec_latex_cells(w) {
        Some(Err(e)) => Err(e),
        Some(Ok(cells)) => Ok((Progress { out: p.out + cells, ..p }, skip)),
        None => {
            let body = match spec_split_word_shortcut(w) {
                Some((code, n)) => {
                    let pa = Progress { out: p.out + code, ..p };
                    let rest = w.subrange(n as int, w.len() as int);
                    if rest.len() > 0 {
                        proof {
                            lemma_normalize_len(word);
                            crate::word_shortcut::lemma_shortcut_shape(w);
                            lemma_words_total(rest, 0);
                        }
                        match spec_encode_words(pa, Seq::empty(), spec_words(rest)) {
                            Ok(pb) => Ok((pb, skip)),
                            Err(e) => Err(e),
                        }
                    } else {
                        Ok((pa, skip))
                    }
                },
                None => match spec_walk(spec_word_start(p, skip, w, prev, rem), w, 0, rem) {
                    Ok(r) => Ok((Progress { state: r.state, out: r.out }, r.skip)),
                    Err(e) => Err(e),
                },
            };
            match body {
                Ok((pb, k)) => Ok((spec_word_tail(pb, rem), k)),
                Err(e) => Err(e),
            }
        },
    }
}

/// What the words `ws` write and leave behind, the first of them after the
/// word `prev`. Each word starts with nothing to pass over.
pub open spec fn spec_encode_words(p: Progress, prev: Seq<char>, ws: Seq<Seq<char>>) -> Result<
    Progress,
    EncodeError,
>
    decreases spec_total_len(ws), 1 + ws.len(),
{
    if ws.len() == 0 {
        Ok(p)
    } else {
        match spec_encode_word(p, 0, ws[0], prev, ws.skip(1)) {
            Err(e) => Err(e),
            Ok((pa, _)) => spec_encode_words(pa, ws[0], ws.skip(1)),
        }
    }
}

/// What a text writes and leaves behind: its words in turn.
pub open spec fn spec_encode_text(p: Progress, text: Seq<char>) -> Result<Progress, EncodeError> {
    spec_encode_words(p, Seq::empty(), spec_words(text))
}


/// `r` and the values `e`, `out` are what `want` says: the same progress,
/// or the same error.
pub open spec fn progress_done(
    r: Result<(), EncodeError>,
    e: &Encoder,
    out: &Vec<u8>,
    want: Result<Progress, EncodeError>,
) -> bool {
    match want {
        Ok(p) => r is Ok && progress_of(e, out) =~= p,
        Err(x) => r matches Err(g) && g == x,
    }
}

/// As `progress_done`, with the number of characters still to pass over.
pub open spec fn word_done(
    r: Result<(), EncodeError>,
    e: &Encoder,
    out: &Vec<u8>,
    skip: usize,
    want: Result<(Progress, int), EncodeError>,
) -> bool {
    match want {
        Ok((p, k)) => r is Ok && progress_of(e, out) =~= p && skip == k,
        Err(x) => r matches Err(g) && g == x,
    }
}

fn latex_cells(w: &Vec<char>) -> (r: Option<Result<Vec<u8>, EncodeError>>)
    ensures
        match spec_latex_cells(w@) {
            Some(want) => r matches Some(got) && crate::fraction::cells_res(got, want),
            None => r is None,
        },
{
    match parse_latex_fraction(w) {
        Some((Some(whole), num, den)) => Some(encode_mixed_fraction(&whole, &num, &den)),
        Some((None, num, den)) => Some(encode_fraction(&num, &den)),
        None => None,
    }
}

impl Encoder {
    fn word_start(
        &mut self,
        skip: &usize,
        result: &mut Vec<u8>,
        w: &Vec<char>,
        prev: &Vec<char>,
        words: &Vec<Vec<char>>,
        next: usize,
        stats: &WordStats,
    ) -> (flags: WordFlags)
        requires
            next <= words.len(),
            *stats == spec_word_stats(w@),
        ensures
            run_of(final(self), &flags, *skip, final(result)) =~= spec_word_start(
                progress_of(old(self), old(result)),
                *skip as int,
                w@,
                prev@,
                rest_of(words, next),
            ),
    {
        let mut flags = WordFlags {
            pending: self.english_indicator && !self.is_english && has_letter(w),
            is_number: false,
            is_big_english: false,
        };
        if flags.pending && is_ascii_alphabetic(w[0]) {
            self.enter_english(result);
            flags.pending = false;
        }
        let ghost r1 = run_of(self, &flags, *skip, result);
        if stats.all_upper && !self.triple_big_english && stats.starts_with_letter {
            let ghost rem = rest_of(words, next);
            if (!self.has_processed_word || !all_letters(prev)) && words.len() - next >= 2
                && all_letters(&words[next]) && all_letters(&words[next + 1]) {
                self.triple_big_english = true;
                result.push(CAPITAL);
                result.push(CAPITAL);
                result.push(CAPITAL);
                assert(result@ =~= r1.out + seq![CAPITAL, CAPITAL, CAPITAL]);
            } else if w.len() >= 2 {
                result.push(CAPITAL);
                result.push(CAPITAL);
                assert(result@ =~= r1.out + seq![CAPITAL, CAPITAL]);
            }
        }
        flags
    }

    fn next_word_boundary(&mut self, result: &mut Vec<u8>, next_word: &Vec<char>)
        ensures
            progress_of(final(self), final(result)) =~= spec_next_word_boundary(
                progress_of(old(self), old(result)),
                next_word@,
            ),
    {
        let (_, first) = letters(next_word);
        if is_single_letter_word(next_word) && requires_single_letter_continuation(first) {
            self.exit_english(true);
        } else if next_word.len() > 0 {
            match CharType::new(next_word[0]) {
                Ok(CharType::English(_)) => {},
                Ok(CharType::Number(_)) => {},
                Ok(CharType::Symbol(sym)) => {
                    if is_english_symbol(sym) {
                    } else if should_force_terminator_before_symbol(sym) {
                        result.push(ENGLISH_CLOSE);
                        self.exit_english(false);
                    } else if !should_skip_terminator_for_symbol(sym) {
                        result.push(ENGLISH_CLOSE);
                        self.exit_english(false);
                    } else {
                        self.exit_english(should_request_continuation(sym));
                    }
                },
                _ => {
                    result.push(ENGLISH_CLOSE);
                    self.exit_english(false);
                },
            }
        }
    }

    fn word_tail(&mut self, result: &mut Vec<u8>, words: &Vec<Vec<char>>, next: usize)
        requires
            next <= words.len(),
        ensures
            progress_of(final(self), final(result)) =~= spec_word_tail(
                progress_of(old(self), old(result)),
                rest_of(words, next),
            ),
    {
        let more = next < words.len();
        if self.triple_big_english && !(more && all_letters(&words[next])) {
            result.push(CAPITAL);
            result.push(PHRASE_END);
            self.triple_big_english = false;
            assert(result@ =~= old(result)@ + seq![CAPITAL, PHRASE_END]);
        }
        if more {
            if self.english_indicator && self.is_english {
                self.next_word_boundary(result, &words[next]);
            }
            result.push(SPACE);
        }
        if !self.has_processed_word {
            self.has_processed_word = true;
        }
    }

    /// Encodes one word, given as characters. The words after it are
    /// `words` from `next` on.
    pub(crate) fn encode_word_chars(
        &mut self,
        word: &Vec<char>,
        prev: &Vec<char>,
        words: &Vec<Vec<char>>,
        next: usize,
        skip: &mut usize,
        result: &mut Vec<u8>,
    ) -> (r: Result<(), EncodeError>)
        requires
            next <= words.len(),
        ensures
            word_done(
                r,
                final(self),
                final(result),
                *final(skip),
                spec_encode_word(
                    progress_of(old(self), old(result)),
                    *old(skip) as int,
                    word@,
                    prev@,
                    rest_of(words, next),
                ),
            ),
        decreases word.len(), 0int,
    {
        let w = normalize(word);
        match latex_cells(&w) {
            Some(cells) => {
                let cells = cells?;
                append_cells(result, &cells);
                return Ok(());
            },
            None => {},
        }
        match split_word_shortcut(&w) {
            Some((code, n)) => {
                append_cells(result, &code);
                if w.len() > n {
                    let rest = copy_range(&w, n, w.len());
                    self.encode_text_chars(&rest, result)?;
                }
            },
            None => {
                let stats = word_stats(&w);
                let mut flags = self.word_start(skip, result, &w, prev, words, next, &stats);
                self.walk(&mut flags, skip, result, &w, words, next, &stats)?;
            },
        }
        self.word_tail(result, words, next);
        Ok(())
    }

    /// Encodes a text, given as characters: its words in turn.
    pub(crate) fn encode_text_chars(
        &mut self,
        text: &Vec<char>,
        result: &mut Vec<u8>,
    ) -> (r: Result<
        (),
        EncodeError,
    >)
        ensures
            progress_done(
                r,
                final(self),
                final(result),
                spec_encode_text(progress_of(old(self), old(result)), text@),
            ),
        decreases text.len(), 1int,
    {
        let words = split_words(text);
        let empty: Vec<char> = Vec::new();
        let ghost ws = words_view(words@);
        let ghost start = progress_of(self, result);
        proof {
            lemma_words_total(text@, 0);
            assert(ws.skip(0) =~= ws);
        }
        let mut k: usize = 0;
        while k < words.len()
            invariant
                k <= words.len(),
                ws == words_view(words@),
                ws == spec_words(text@),
                spec_total_len(ws) <= text.len(),
                empty@ == Seq::<char>::empty(),
                start == progress_of(old(self), old(result)),
                spec_encode_words(
                    progress_of(self, result),
                    if k == 0 {
                        Seq::empty()
                    } else {
                        ws[k - 1]
                    },
                    ws.skip(k as int),
                ) == spec_encode_words(start, Seq::empty(), ws),
            decreases words.len() - k,
        {
            let prev = if k == 0 {
                &empty
            } else {
                &words[k - 1]
            };
            let mut skip: usize = 0;
            proof {
                lemma_word_in_total(ws, k as int);
                assert(ws.skip(k as int)[0] == ws[k as int]);
                assert(ws.skip(k as int).skip(1) =~= ws.skip(k + 1));
                assert(ws[k as int] == words@[k as int]@);
            }
            let ghost cur = progress_of(self, result);
            let ghost prev_view = prev@;
            match self.encode_word_chars(&words[k], prev, &words, k + 1, &mut skip, result) {
                Ok(()) => {},
                Err(e) => {
                    assert(spec_encode_words(cur, prev_view, ws.skip(k as int)) == Err::<
                        Progress,
                        EncodeError,
                    >(e));
                    return Err(e);
                },
            }
            k += 1;
        }
        Ok(())
    }
}

} // verus!
