//! The encoder as its users see it: a session fed part by part, and the
//! functions that encode a whole text at once.

use vstd::prelude::*;
use crate::error::EncodeError;
use crate::laws_cells::spec_valid_cells;
use crate::laws_walk::spec_sound;
use crate::state::{Encoder, EncoderState, CAPITAL, PHRASE_END};
use crate::text::{str_chars, words_view};
use crate::unicode::{encode_unicode, glyph};
use crate::word::{
    progress_of, spec_encode_text, spec_encode_word, Progress,
};
use crate::word_stats::{has_korean, spec_has_korean};

verus! {

/// `String::push`: the string with `c` added at its end.
pub assume_specification[ String::push ](s: &mut String, c: char)
    ensures
        final(s)@ == old(s)@.push(c),
;

/// `r` and the values `e`, `out` are what `want` says: the same progress,
/// or the message of the same error.
pub open spec fn session_done(
    r: Result<(), String>,
    e: &Encoder,
    out: &Vec<u8>,
    want: Result<Progress, EncodeError>,
) -> bool {
    match want {
        Ok(p) => r is Ok && progress_of(e, out) =~= p,
        Err(x) => r matches Err(m) && m@ == x.spec_message(),
    }
}

/// A list of words as their characters.
pub open spec fn strs_view(ws: Seq<&str>) -> Seq<Seq<char>> {
    Seq::new(ws.len(), |k: int| ws[k]@)
}

/// The end of a session: the sign that closes a phrase in capitals, where
/// one is still open.
pub open spec fn spec_finish(p: Progress) -> Progress {
    if p.state.triple_big_english {
        Progress {
            state: EncoderState { triple_big_english: false, ..p.state },
            out: p.out + seq![CAPITAL, PHRASE_END],
        }
    } else {
        p
    }
}

/// An encoder that has seen nothing.
pub open spec fn spec_fresh(english_indicator: bool) -> EncoderState {
    EncoderState {
        is_english: false,
        triple_big_english: false,
        english_indicator,
        has_processed_word: false,
        needs_english_continuation: false,
        parenthesis_stack: Seq::empty(),
    }
}

/// The cells of a whole text: a fresh encoder, which marks Latin runs
/// where the text holds a Hangul syllable, takes the text and finishes.
pub open spec fn spec_encode(text: Seq<char>) -> Result<Seq<u8>, EncodeError> {
    match spec_encode_text(
        Progress { state: spec_fresh(spec_has_korean(text)), out: Seq::empty() },
        text,
    ) {
        Ok(p) => Ok(spec_finish(p).out),
        Err(e) => Err(e),
    }
}

/// The glyphs of a sequence of cells.
pub open spec fn spec_glyphs(cells: Seq<u8>) -> Seq<char> {
    Seq::new(cells.len(), |k: int| glyph(cells[k]))
}

impl Encoder {
    /// Encodes a part of the text and appends its cells to `result`.
    ///
    /// The part is split at spaces, and its words are encoded in turn, each
    /// with the word before it and the words after it in view. On an error
    /// nothing is promised of the encoder or of `result`.
    pub fn encode(&mut self, text: &str, result: &mut Vec<u8>) -> (r: Result<(), String>)
        ensures
            session_done(
                r,
                final(self),
                final(result),
                spec_encode_text(progress_of(old(self), old(result)), text@),
            ),
            r is Ok ==> old(result)@.is_prefix_of(final(result)@),
            r is Ok ==> final(self).english_indicator == old(self).english_indicator,
            r is Ok && spec_sound(old(self)@) ==> spec_sound(final(self)@),
            r is Ok && spec_valid_cells(old(result)@) ==> spec_valid_cells(final(result)@),
    {
        let chars = str_chars(text);
        match self.encode_text_chars(&chars, result) {
            Ok(()) => {
                proof {
                    crate::laws_walk::lemma_text_keeps(progress_of(old(self), old(result)), text@);
                    if spec_valid_cells(old(result)@) {
                        crate::laws_cells::lemma_text_valid(
                            progress_of(old(self), old(result)),
                            text@,
                        );
                    }
                }
                Ok(())
            },
            Err(e) => Err(e.message()),
        }
    }

    /// Encodes one word after the word `prev_word` and before the words
    /// `remaining_words`. The first `skip_count` characters are passed
    /// over; the count that is left at the end of the word is handed back.
    pub fn encode_word(
        &mut self,
        word: &str,
        prev_word: &str,
        remaining_words: &[&str],
        skip_count: &mut usize,
        result: &mut Vec<u8>,
    ) -> (r: Result<(), String>)
        ensures
            match spec_encode_word(
                progress_of(old(self), old(result)),
                *old(skip_count) as int,
                word@,
                prev_word@,
                strs_view(remaining_words@),
            ) {
                Ok((p, k)) => r is Ok && progress_of(final(self), final(result)) =~= p
                    && *final(skip_count) == k,
                Err(x) => r matches Err(m) && m@ == x.spec_message(),
            },
            r is Ok ==> old(result)@.is_prefix_of(final(result)@),
            r is Ok ==> final(self).english_indicator == old(self).english_indicator,
            r is Ok && spec_sound(old(self)@) ==> spec_sound(final(self)@),
            r is Ok && spec_valid_cells(old(result)@) ==> spec_valid_cells(final(result)@),
    {
        let w = str_chars(word);
        let prev = str_chars(prev_word);
        let mut words: Vec<Vec<char>> = Vec::new();
        let mut k: usize = 0;
        while k < remaining_words.len()
            invariant
                k <= remaining_words.len(),
                words.len() == k,
                forall|j: int| 0 <= j < k ==> words@[j]@ == #[trigger] remaining_words@[j]@,
            decreases remaining_words.len() - k,
        {
            words.push(str_chars(remaining_words[k]));
            k += 1;
        }
        assert(words_view(words@).skip(0) =~= strs_view(remaining_words@));
        match self.encode_word_chars(&w, &prev, &words, 0, skip_count, result) {
            Ok(()) => {
                proof {
                    crate::laws_walk::lemma_word_keeps(
                        progress_of(old(self), old(result)),
                        *old(skip_count) as int,
                        word@,
                        prev_word@,
                        strs_view(remaining_words@),
                    );
                    if spec_valid_cells(old(result)@) {
                        crate::laws_cells::lemma_word_valid(
                            progress_of(old(self), old(result)),
                            *old(skip_count) as int,
                            word@,
                            prev_word@,
                            strs_view(remaining_words@),
                        );
                    }
                }
                Ok(())
            },
            Err(e) => Err(e.message()),
        }
    }

    /// Ends the session: writes the sign that closes a phrase in capitals,
    /// where one is still open.
    pub fn finish(&mut self, result: &mut Vec<u8>) -> (r: Result<(), String>)
        ensures
            r is Ok,
            progress_of(final(self), final(result)) =~= spec_finish(
                progress_of(old(self), old(result)),
            ),
            old(result)@.is_prefix_of(final(result)@),
            !final(self).triple_big_english,
            spec_valid_cells(old(result)@) ==> spec_valid_cells(final(result)@),
    {
        if self.triple_big_english {
            result.push(CAPITAL);
            result.push(PHRASE_END);
            self.triple_big_english = false;
            assert(result@ =~= old(result)@ + seq![CAPITAL, PHRASE_END]);
        }
        assert(result@.subrange(0, old(result)@.len() as int) =~= old(result)@);
        Ok(())
    }
}

/// The cells of `text`. Each of them is a six-dot cell or the line break.
pub fn encode(text: &str) -> (r: Result<Vec<u8>, String>)
    ensures
        match spec_encode(text@) {
            Ok(cells) => r matches Ok(v) && v@ == cells,
            Err(e) => r matches Err(m) && m@ == e.spec_message(),
        },
        r matches Ok(v) ==> spec_valid_cells(v@),
{
    proof {
        if spec_encode(text@) is Ok {
            crate::laws_cells::lemma_encode_valid(text@);
        }
    }
    let chars = str_chars(text);
    let mut encoder = Encoder::new(has_korean(&chars));
    let mut result: Vec<u8> = Vec::new();
    match encoder.encode_text_chars(&chars, &mut result) {
        Ok(()) => {},
        Err(e) => {
            return Err(e.message());
        },
    }
    let _ = encoder.finish(&mut result);
    Ok(result)
}

/// The cells of `text` as braille patterns, with line breaks carried
/// through: as many characters as cells, each a six-dot pattern or a line
/// break.
pub fn encode_to_unicode(text: &str) -> (r: Result<String, String>)
    ensures
        match spec_encode(text@) {
            Ok(cells) => r matches Ok(s) && s@ == spec_glyphs(cells),
            Err(e) => r matches Err(m) && m@ == e.spec_message(),
        },
        r matches Ok(s) ==> forall|k: int|
            0 <= k < s@.len() ==> #[trigger] s@[k] == '\n' || 0x2800 <= s@[k] as u32 <= 0x283F,
{
    let cells = encode(text)?;
    let mut s = String::new();
    let mut k: usize = 0;
    while k < cells.len()
        invariant
            k <= cells.len(),
            s@ == spec_glyphs(cells@.take(k as int)),
        decreases cells.len() - k,
    {
        s.push(encode_unicode(cells[k]));
        k += 1;
        assert(s@ =~= spec_glyphs(cells@.take(k as int)));
    }
    assert(cells@.take(cells.len() as int) =~= cells@);
    Ok(s)
}

/// The cells of `text` for a braille font: the same braille patterns.
pub fn encode_to_braille_font(text: &str) -> (r: Result<String, String>)
    ensures
        match spec_encode(text@) {
            Ok(cells) => r matches Ok(s) && s@ == spec_glyphs(cells),
            Err(e) => r matches Err(m) && m@ == e.spec_message(),
        },
        r matches Ok(s) ==> forall|k: int|
            0 <= k < s@.len() ==> #[trigger] s@[k] == '\n' || 0x2800 <= s@[k] as u32 <= 0x283F,
{
    encode_to_unicode(text)
}

} // verus!
