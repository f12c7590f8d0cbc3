//! The state of an encoder, between words and inside one.

use vstd::prelude::*;

verus! {

/// The sign that opens a Latin run.
pub const ENGLISH_OPEN: u8 = 52;

/// The sign that ends a Latin run.
pub const ENGLISH_CLOSE: u8 = 50;

/// The sign that opens a Latin run again after a silent end.
pub const ENGLISH_CONTINUE: u8 = 48;

/// The sign before a capital letter. Twice, it marks a word in capitals;
/// three times, a phrase.
pub const CAPITAL: u8 = 32;

/// The second cell of the sign that ends a phrase in capitals.
pub const PHRASE_END: u8 = 4;

/// An encoder for one text, fed part by part.
pub struct Encoder {
    /// Inside a Latin run.
    pub is_english: bool,
    /// Inside a phrase in capitals; its closing sign is owed.
    pub triple_big_english: bool,
    /// Latin runs are marked: the text holds Hangul.
    pub english_indicator: bool,
    /// A word has been encoded.
    pub has_processed_word: bool,
    /// The next Latin run opens with the continuation sign.
    pub needs_english_continuation: bool,
    /// For each parenthesis still open, whether it was a Latin one.
    pub parenthesis_stack: Vec<bool>,
}

/// An encoder as plain values.
#[verifier::ext_equal]
pub struct EncoderState {
    pub is_english: bool,
    pub triple_big_english: bool,
    pub english_indicator: bool,
    pub has_processed_word: bool,
    pub needs_english_continuation: bool,
    pub parenthesis_stack: Seq<bool>,
}

impl View for Encoder {
    type V = EncoderState;

    open spec fn view(&self) -> EncoderState {
        EncoderState {
            is_english: self.is_english,
            triple_big_english: self.triple_big_english,
            english_indicator: self.english_indicator,
            has_processed_word: self.has_processed_word,
            needs_english_continuation: self.needs_english_continuation,
            parenthesis_stack: self.parenthesis_stack@,
        }
    }
}

/// What the encoder keeps while it walks through one word.
#[derive(Clone, Copy, Debug)]
pub struct WordFlags {
    /// A Latin run is to be opened at the first letter or Latin mark.
    pub pending: bool,
    /// Inside a number.
    pub is_number: bool,
    /// Inside a stretch of capitals that has its sign already.
    pub is_big_english: bool,
}

/// Everything that one step through a word reads and changes: the encoder,
/// the flags of the word, the number of characters still to pass over, and
/// the cells written so far.
#[verifier::ext_equal]
pub struct Run {
    pub state: EncoderState,
    pub pending: bool,
    pub is_number: bool,
    pub is_big_english: bool,
    pub skip: int,
    pub out: Seq<u8>,
}

/// The run that the four values make up.
pub open spec fn run_of(e: &Encoder, f: &WordFlags, skip: usize, out: &Vec<u8>) -> Run {
    Run {
        state: e@,
        pending: f.pending,
        is_number: f.is_number,
        is_big_english: f.is_big_english,
        skip: skip as int,
        out: out@,
    }
}

/// `r` and the values `got` are what `want` says: the same run, or the
/// same error.
pub open spec fn run_done<E>(r: Result<(), E>, got: Run, want: Result<Run, E>) -> bool {
    match want {
        Ok(w) => r is Ok && got =~= w,
        Err(e) => r matches Err(g) && g == e,
    }
}

/// The state inside a Latin run.
pub open spec fn spec_enter_state(s: EncoderState) -> EncoderState {
    EncoderState { is_english: true, needs_english_continuation: false, ..s }
}

/// The sign that opens a Latin run from the state `s`.
pub open spec fn spec_enter_cell(s: EncoderState) -> u8 {
    if s.needs_english_continuation {
        ENGLISH_CONTINUE
    } else {
        ENGLISH_OPEN
    }
}

/// The state outside a Latin run.
pub open spec fn spec_exit_state(s: EncoderState, needs_continuation: bool) -> EncoderState {
    EncoderState { is_english: false, needs_english_continuation: needs_continuation, ..s }
}

/// The run with `cells` written.
pub open spec fn emit(r: Run, cells: Seq<u8>) -> Run {
    Run { out: r.out + cells, ..r }
}

/// The run after a Latin run was opened.
pub open spec fn spec_enter(r: Run) -> Run {
    Run { state: spec_enter_state(r.state), out: r.out.push(spec_enter_cell(r.state)), ..r }
}

/// The run after a Latin run was left.
pub open spec fn spec_exit(r: Run, needs_continuation: bool) -> Run {
    Run { state: spec_exit_state(r.state, needs_continuation), ..r }
}

/// The run after a Latin run was left with its closing sign.
pub open spec fn spec_close(r: Run) -> Run {
    spec_exit(emit(r, seq![ENGLISH_CLOSE]), false)
}

impl Encoder {
    /// An encoder that has seen nothing. It marks Latin runs where
    /// `english_indicator` is set.
    pub fn new(english_indicator: bool) -> (e: Self)
        ensures
            e@ == (EncoderState {
                is_english: false,
                triple_big_english: false,
                english_indicator,
                has_processed_word: false,
                needs_english_continuation: false,
                parenthesis_stack: Seq::empty(),
            }),
    {
        Self {
            english_indicator,
            is_english: false,
            triple_big_english: false,
            has_processed_word: false,
            needs_english_continuation: false,
            parenthesis_stack: Vec::new(),
        }
    }

    /// Leaves the Latin run without writing anything.
    pub fn exit_english(&mut self, needs_continuation: bool)
        ensures
            final(self)@ == spec_exit_state(old(self)@, needs_continuation),
    {
        self.is_english = false;
        self.needs_english_continuation = needs_continuation;
    }

    /// Opens a Latin run: writes the continuation sign where one is owed,
    /// else the opening sign.
    pub fn enter_english(&mut self, result: &mut Vec<u8>)
        ensures
            final(self)@ == spec_enter_state(old(self)@),
            final(result)@ == old(result)@.push(spec_enter_cell(old(self)@)),
    {
        if self.needs_english_continuation {
            result.push(ENGLISH_CONTINUE);
        } else {
            result.push(ENGLISH_OPEN);
        }
        self.is_english = true;
        self.needs_english_continuation = false;
    }
}

} // verus!
