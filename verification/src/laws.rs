//! What holds of every text: laws of the encoder, proved from its
//! specification.

use vstd::prelude::*;
use crate::encoder::{spec_encode, spec_finish, spec_fresh, spec_glyphs};
use crate::error::EncodeError;
use crate::text::{spec_normalize, spec_word_end, spec_words, spec_words_from};
use crate::unicode::{glyph, is_braille, NEWLINE};
use crate::word::{spec_encode_text, spec_encode_word, Progress};
use crate::word_stats::spec_has_korean;

verus! {

/// Whether the text is made of spaces and nothing else. The empty text
/// counts.
pub open spec fn spec_is_blank(text: Seq<char>) -> bool {
    forall|k: int| 0 <= k < text.len() ==> text[k] == ' '
}

/// A text of spaces holds no word.
pub proof fn lemma_blank_has_no_words(text: Seq<char>, i: int)
    requires
        spec_is_blank(text),
        0 <= i,
    ensures
        spec_words_from(text, i) == Seq::<Seq<char>>::empty(),
    decreases text.len() - i,
{
    if i < text.len() {
        lemma_blank_has_no_words(text, i + 1);
    }
}

/// A text without a word is made of spaces.
pub proof fn lemma_no_words_is_blank(text: Seq<char>, i: int)
    requires
        0 <= i,
        spec_words_from(text, i).len() == 0,
    ensures
        forall|k: int| i <= k < text.len() ==> text[k] == ' ',
    decreases text.len() - i,
{
    if i < text.len() {
        if text[i] == ' ' {
            lemma_no_words_is_blank(text, i + 1);
        }
    }
}

/// A text of spaces encodes to nothing.
pub proof fn lemma_blank_text_encodes_to_nothing(text: Seq<char>)
    requires
        spec_is_blank(text),
    ensures
        spec_encode(text) == Ok::<Seq<u8>, EncodeError>(Seq::empty()),
{
    lemma_blank_has_no_words(text, 0);
}

/// The number of line breaks among the cells.
pub open spec fn spec_newline_count(cells: Seq<u8>) -> nat
    decreases cells.len(),
{
    if cells.len() == 0 {
        0
    } else {
        spec_newline_count(cells.drop_last()) + if cells.last() == NEWLINE {
            1nat
        } else {
            0nat
        }
    }
}

/// The number of braille patterns among the characters.
pub open spec fn spec_braille_count(s: Seq<char>) -> nat
    decreases s.len(),
{
    if s.len() == 0 {
        0
    } else {
        spec_braille_count(s.drop_last()) + if is_braille(s.last()) {
            1nat
        } else {
            0nat
        }
    }
}

/// The glyphs of a sequence of cells are as many as the cells, and the
/// braille patterns among them as many as the cells that are no line
/// break.
pub proof fn lemma_glyph_count(cells: Seq<u8>)
    ensures
        spec_glyphs(cells).len() == cells.len(),
        spec_braille_count(spec_glyphs(cells)) + spec_newline_count(cells) == cells.len(),
    decreases cells.len(),
{
    if cells.len() > 0 {
        lemma_glyph_count(cells.drop_last());
        assert(spec_glyphs(cells).drop_last() =~= spec_glyphs(cells.drop_last()));
        assert(spec_glyphs(cells).last() == glyph(cells.last()));
    }
}

/// The text as braille patterns holds one pattern for each cell of the
/// text that is no line break.
pub proof fn lemma_unicode_length(text: Seq<char>)
    requires
        spec_encode(text) is Ok,
    ensures
        spec_braille_count(spec_glyphs(spec_encode(text)->Ok_0)) == spec_encode(text)->Ok_0.len()
            - spec_newline_count(spec_encode(text)->Ok_0),
{
    lemma_glyph_count(spec_encode(text)->Ok_0);
}

/// Two words with the same short form are encoded alike: a word with six
/// full stops and the one with three in their place, a word with two
/// ellipsis characters and the one with one.
pub proof fn lemma_short_form_decides(
    p: Progress,
    skip: int,
    a: Seq<char>,
    b: Seq<char>,
    prev: Seq<char>,
    rem: Seq<Seq<char>>,
)
    requires
        spec_normalize(a) == spec_normalize(b),
    ensures
        spec_encode_word(p, skip, a, prev, rem) == spec_encode_word(p, skip, b, prev, rem),
{
}


proof fn lemma_word_end_shift(a: Seq<char>, b: Seq<char>, j: int)
    requires
        0 <= j <= b.len(),
    ensures
        spec_word_end(a + b, a.len() + j) == a.len() + spec_word_end(b, j),
    decreases b.len() - j,
{
    if j < b.len() {
        assert((a + b)[a.len() + j] == b[j]);
        if b[j] != ' ' {
            lemma_word_end_shift(a, b, j + 1);
        }
    }
}

/// The words of a text that follows another are the words that the
/// joined text holds from the joint on.
pub proof fn lemma_words_shift(a: Seq<char>, b: Seq<char>, j: int)
    requires
        0 <= j <= b.len(),
    ensures
        spec_words_from(a + b, a.len() + j) == spec_words_from(b, j),
    decreases b.len() - j,
{
    if j < b.len() {
        assert((a + b)[a.len() + j] == b[j]);
        if b[j] == ' ' {
            lemma_words_shift(a, b, j + 1);
        } else {
            let e = spec_word_end(b, j + 1);
            crate::text::lemma_word_end_bounds(b, j + 1);
            lemma_word_end_shift(a, b, j + 1);
            lemma_words_shift(a, b, e);
            assert((a + b).subrange(a.len() + j, a.len() + e) =~= b.subrange(j, e));
        }
    }
}

proof fn lemma_words_skip_blank(a: Seq<char>, b: Seq<char>, i: int)
    requires
        spec_is_blank(a),
        0 <= i <= a.len(),
    ensures
        spec_words_from(a + b, i) == spec_words_from(a + b, a.len() as int),
    decreases a.len() - i,
{
    if i < a.len() {
        assert((a + b)[i] == a[i]);
        lemma_words_skip_blank(a, b, i + 1);
    }
}

/// Spaces before a text add no word to it.
pub proof fn lemma_words_after_blank(a: Seq<char>, b: Seq<char>)
    requires
        spec_is_blank(a),
    ensures
        spec_words(a + b) == spec_words(b),
{
    lemma_words_skip_blank(a, b, 0);
    lemma_words_shift(a, b, 0);
}

proof fn lemma_word_end_before_blank(a: Seq<char>, b: Seq<char>, i: int)
    requires
        spec_is_blank(b),
        0 <= i <= a.len(),
    ensures
        spec_word_end(a + b, i) == spec_word_end(a, i),
    decreases a.len() - i,
{
    if i < a.len() {
        assert((a + b)[i] == a[i]);
        if a[i] != ' ' {
            lemma_word_end_before_blank(a, b, i + 1);
        }
    } else if b.len() > 0 {
        assert((a + b)[i] == b[0]);
    }
}

proof fn lemma_words_before_blank_from(a: Seq<char>, b: Seq<char>, i: int)
    requires
        spec_is_blank(b),
        0 <= i <= a.len(),
    ensures
        spec_words_from(a + b, i) == spec_words_from(a, i),
    decreases a.len() - i,
{
    if i < a.len() {
        assert((a + b)[i] == a[i]);
        if a[i] == ' ' {
            lemma_words_before_blank_from(a, b, i + 1);
        } else {
            let e = spec_word_end(a, i + 1);
            crate::text::lemma_word_end_bounds(a, i + 1);
            lemma_word_end_before_blank(a, b, i + 1);
            lemma_words_before_blank_from(a, b, e);
            assert((a + b).subrange(i, e) =~= a.subrange(i, e));
        }
    } else {
        lemma_words_shift(a, b, 0);
        lemma_blank_has_no_words(b, 0);
    }
}

/// Spaces after a text add no word to it.
pub proof fn lemma_words_before_blank(a: Seq<char>, b: Seq<char>)
    requires
        spec_is_blank(b),
    ensures
        spec_words(a + b) == spec_words(a),
{
    lemma_words_before_blank_from(a, b, 0);
}

/// The cells of a session that is fed `a` and then `b` and finished. The
/// encoder marks Latin runs where the two parts together hold a Hangul
/// syllable.
pub open spec fn spec_session(a: Seq<char>, b: Seq<char>) -> Result<Seq<u8>, EncodeError> {
    let start = Progress { state: spec_fresh(spec_has_korean(a + b)), out: Seq::empty() };
    match spec_encode_text(start, a) {
        Err(e) => Err(e),
        Ok(pa) => match spec_encode_text(pa, b) {
            Err(e) => Err(e),
            Ok(pb) => Ok(spec_finish(pb).out),
        },
    }
}

/// A session fed in two parts, one of which holds no word, writes what
/// the two parts written as one text give.
pub proof fn lemma_session_with_wordless_part(a: Seq<char>, b: Seq<char>)
    requires
        spec_words(a).len() == 0 || spec_words(b).len() == 0,
    ensures
        spec_session(a, b) == spec_encode(a + b),
{
    if spec_words(a).len() == 0 {
        lemma_no_words_is_blank(a, 0);
        lemma_words_after_blank(a, b);
        assert(spec_words(a) =~= Seq::<Seq<char>>::empty());
    } else {
        lemma_no_words_is_blank(b, 0);
        lemma_words_before_blank(a, b);
        assert(spec_words(b) =~= Seq::<Seq<char>>::empty());
    }
}

} // verus!
