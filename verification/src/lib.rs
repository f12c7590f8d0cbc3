//! Korean braille transcoder: text in, six-dot braille cells out.
//!
//! A text that mixes Hangul, Latin letters, digits, arithmetic signs and
//! punctuation is encoded word by word. [`encode`] gives the cells as
//! bytes, [`encode_to_unicode`] as braille patterns; an [`Encoder`] takes a
//! text part by part.
//!
//! The tables of cells are in `jauem`, `moeum`, `korean_part`, `english`,
//! `number`, `symbol_shortcut` and `math_symbol_shortcut`; the contractions
//! in `korean_char`, `rule_en` and `word_shortcut`. One step through a
//! word is in `step`, a whole word and a whole text in `word`, and the
//! functions for users in `encoder`. Each function has a specification
//! beside it, the function of the same name with `spec_` before it, and is
//! proved to compute it. The modules `laws` and `laws_*` hold what is
//! proved of the specifications themselves.

pub mod char_struct;
pub mod encoder;
pub mod english;
pub mod english_logic;
pub mod error;
pub mod fraction;
pub mod jauem;
pub mod korean_char;
pub mod korean_part;
pub mod laws;
pub mod laws_capital;
pub mod laws_cells;
pub mod laws_number;
pub mod laws_outlook;
pub mod laws_paren;
pub mod laws_short_form;
pub mod laws_success;
pub mod laws_walk;
pub mod math_symbol_shortcut;
pub mod moeum;
pub mod number;
pub mod rule;
pub mod rule_en;
pub mod split;
pub mod state;
pub mod step;
pub mod symbol_shortcut;
pub mod text;
pub mod unicode;
pub mod utils;
pub mod word;
pub mod word_shortcut;
pub mod word_stats;

pub use crate::encoder::{encode, encode_to_braille_font, encode_to_unicode};
pub use crate::state::Encoder;
