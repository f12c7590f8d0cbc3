//! One syllable as cells, with the contractions of the Korean code.

use vstd::prelude::*;
use crate::char_struct::KoreanChar;
use crate::error::EncodeError;
use crate::fraction::cells_res;
use crate::jauem::{
    encode_choseong, encode_jongseong, spec_encode_choseong, spec_encode_jongseong,
};
use crate::moeum::{encode_jungsong, spec_encode_jungsong};
use crate::split::{spec_split_korean_jauem, split_korean_jauem};
use crate::text::append_cells;

verus! {

/// The marker before a doubled initial consonant.
pub const DOUBLE_MARK: u8 = 32;

/// The one cell for a vowel together with the final that follows it.
pub open spec fn spec_rime_shortcut(jung: char, jong: char) -> Option<u8> {
    match (jung, jong) {
        ('ㅓ', 'ㄱ') => Some(57u8),
        ('ㅓ', 'ㄴ') => Some(62u8),
        ('ㅓ', 'ㄹ') => Some(30u8),
        ('ㅕ', 'ㄴ') => Some(33u8),
        ('ㅕ', 'ㄹ') => Some(51u8),
        ('ㅕ', 'ㅇ') => Some(59u8),
        ('ㅗ', 'ㄱ') => Some(45u8),
        ('ㅗ', 'ㄴ') => Some(55u8),
        ('ㅗ', 'ㅇ') => Some(63u8),
        ('ㅜ', 'ㄴ') => Some(27u8),
        ('ㅜ', 'ㄹ') => Some(47u8),
        ('ㅡ', 'ㄴ') => Some(53u8),
        ('ㅡ', 'ㄹ') => Some(46u8),
        ('ㅣ', 'ㄴ') => Some(31u8),
        _ => None,
    }
}

fn rime_shortcut(jung: char, jong: char) -> (r: Option<u8>)
    ensures
        r == spec_rime_shortcut(jung, jong),
{
    match (jung, jong) {
        ('ㅓ', 'ㄱ') => Some(57u8),
        ('ㅓ', 'ㄴ') => Some(62u8),
        ('ㅓ', 'ㄹ') => Some(30u8),
        ('ㅕ', 'ㄴ') => Some(33u8),
        ('ㅕ', 'ㄹ') => Some(51u8),
        ('ㅕ', 'ㅇ') => Some(59u8),
        ('ㅗ', 'ㄱ') => Some(45u8),
        ('ㅗ', 'ㄴ') => Some(55u8),
        ('ㅗ', 'ㅇ') => Some(63u8),
        ('ㅜ', 'ㄴ') => Some(27u8),
        ('ㅜ', 'ㄹ') => Some(47u8),
        ('ㅡ', 'ㄴ') => Some(53u8),
        ('ㅡ', 'ㄹ') => Some(46u8),
        ('ㅣ', 'ㄴ') => Some(31u8),
        _ => None,
    }
}

/// The one cell for a consonant together with the vowel `ㅏ`.
pub open spec fn spec_open_shortcut(cho: char) -> Option<u8> {
    match cho {
        'ㄱ' => Some(43u8),
        'ㄴ' => Some(9u8),
        'ㄷ' => Some(10u8),
        'ㅁ' => Some(17u8),
        'ㅂ' => Some(24u8),
        'ㅅ' => Some(7u8),
        'ㅈ' => Some(40u8),
        'ㅋ' => Some(11u8),
        'ㅌ' => Some(19u8),
        'ㅍ' => Some(25u8),
        'ㅎ' => Some(26u8),
        _ => None,
    }
}

fn open_shortcut(cho: char) -> (r: Option<u8>)
    ensures
        r == spec_open_shortcut(cho),
{
    match cho {
        'ㄱ' => Some(43u8),
        'ㄴ' => Some(9u8),
        'ㄷ' => Some(10u8),
        'ㅁ' => Some(17u8),
        'ㅂ' => Some(24u8),
        'ㅅ' => Some(7u8),
        'ㅈ' => Some(40u8),
        'ㅋ' => Some(11u8),
        'ㅌ' => Some(19u8),
        'ㅍ' => Some(25u8),
        'ㅎ' => Some(26u8),
        _ => None,
    }
}

/// A final consonant as its first part, and its second where it is a
/// compound one.
pub open spec fn spec_split_jongseong(jong: char) -> (char, Option<char>) {
    match jong {
        'ㄲ' => ('ㄱ', Some('ㄱ')),
        'ㄳ' => ('ㄱ', Some('ㅅ')),
        'ㄵ' => ('ㄴ', Some('ㅈ')),
        'ㄶ' => ('ㄴ', Some('ㅎ')),
        'ㄺ' => ('ㄹ', Some('ㄱ')),
        'ㄻ' => ('ㄹ', Some('ㅁ')),
        'ㄼ' => ('ㄹ', Some('ㅂ')),
        'ㄽ' => ('ㄹ', Some('ㅅ')),
        'ㄾ' => ('ㄹ', Some('ㅌ')),
        'ㄿ' => ('ㄹ', Some('ㅍ')),
        'ㅀ' => ('ㄹ', Some('ㅎ')),
        'ㅄ' => ('ㅂ', Some('ㅅ')),
        _ => (jong, None),
    }
}

fn split_jongseong(jong: char) -> (r: (char, Option<char>))
    ensures
        r == spec_split_jongseong(jong),
{
    match jong {
        'ㄲ' => ('ㄱ', Some('ㄱ')),
        'ㄳ' => ('ㄱ', Some('ㅅ')),
        'ㄵ' => ('ㄴ', Some('ㅈ')),
        'ㄶ' => ('ㄴ', Some('ㅎ')),
        'ㄺ' => ('ㄹ', Some('ㄱ')),
        'ㄻ' => ('ㄹ', Some('ㅁ')),
        'ㄼ' => ('ㄹ', Some('ㅂ')),
        'ㄽ' => ('ㄹ', Some('ㅅ')),
        'ㄾ' => ('ㄹ', Some('ㅌ')),
        'ㄿ' => ('ㄹ', Some('ㅍ')),
        'ㅀ' => ('ㄹ', Some('ㅎ')),
        'ㅄ' => ('ㅂ', Some('ㅅ')),
        _ => (jong, None),
    }
}

/// The cells of an optional final consonant.
pub open spec fn spec_final_cells(jong: Option<char>) -> Result<Seq<u8>, EncodeError> {
    match jong {
        None => Ok(Seq::empty()),
        Some(j) => match spec_encode_jongseong(j) {
            Some(cells) => Ok(cells),
            None => Err(EncodeError::MissingKoreanComponent(j)),
        },
    }
}

fn push_final(out: &mut Vec<u8>, jong: Option<char>) -> (r: Result<(), EncodeError>)
    ensures
        match spec_final_cells(jong) {
            Ok(cells) => r is Ok && final(out)@ == old(out)@ + cells,
            Err(e) => r == Err::<(), EncodeError>(e),
        },
{
    match jong {
        None => {
            assert(out@ + Seq::<u8>::empty() =~= out@);
            Ok(())
        },
        Some(j) => {
            let cells = encode_jongseong(j)?;
            append_cells(out, &cells);
            Ok(())
        },
    }
}

/// Whether `ㅓ` with the final `ㅇ` after this initial is written with the
/// cell of `영`.
pub open spec fn spec_takes_yeong(cho: char) -> bool {
    cho == 'ㅅ' || cho == 'ㅈ' || cho == 'ㅊ'
}

/// Vowel and final of a syllable after the plain initial `cho`: the one
/// cell of their contraction and then the second part of a compound final,
/// or else the vowel and the final in full.
pub open spec fn spec_rime_cells(cho: char, jung: char, jong: Option<char>) -> Result<
    Seq<u8>,
    EncodeError,
> {
    let parts = match jong {
        Some(j) => spec_split_jongseong(j),
        None => (' ', None),
    };
    let short = if jong is None {
        None
    } else if spec_takes_yeong(cho) && jung == 'ㅓ' && parts.0 == 'ㅇ' {
        Some(59u8)
    } else {
        spec_rime_shortcut(jung, parts.0)
    };
    match short {
        Some(b) => match spec_final_cells(parts.1) {
            Ok(rest) => Ok(seq![b] + rest),
            Err(e) => Err(e),
        },
        None => match spec_encode_jungsong(jung) {
            None => Err(EncodeError::MissingKoreanComponent(jung)),
            Some(v) => match spec_final_cells(jong) {
                Ok(f) => Ok(v + f),
                Err(e) => Err(e),
            },
        },
    }
}

fn push_rime(out: &mut Vec<u8>, cho: char, jung: char, jong: Option<char>) -> (r: Result<
    (),
    EncodeError,
>)
    ensures
        match spec_rime_cells(cho, jung, jong) {
            Ok(cells) => r is Ok && final(out)@ == old(out)@ + cells,
            Err(e) => r == Err::<(), EncodeError>(e),
        },
{
    let parts = match jong {
        Some(j) => split_jongseong(j),
        None => (' ', None),
    };
    let short = if jong.is_none() {
        None
    } else if (cho == 'ㅅ' || cho == 'ㅈ' || cho == 'ㅊ') && jung == 'ㅓ' && parts.0 == 'ㅇ' {
        Some(59u8)
    } else {
        rime_shortcut(jung, parts.0)
    };
    match short {
        Some(b) => {
            let ghost before = out@;
            out.push(b);
            push_final(out, parts.1)?;
            proof {
                let rest = spec_final_cells(parts.1)->Ok_0;
                assert(before.push(b) + rest =~= before + (seq![b] + rest));
            }
            Ok(())
        },
        None => {
            let ghost before = out@;
            let v = encode_jungsong(jung)?;
            append_cells(out, &v);
            push_final(out, jong)?;
            proof {
                let f = spec_final_cells(jong)->Ok_0;
                assert((before + v@) + f =~= before + (v@ + f));
            }
            Ok(())
        },
    }
}

/// The cells of a syllable.
///
/// A doubled initial is the marker and the plain initial. `것` has two
/// cells of its own. A consonant with `ㅏ` is one cell, and the final
/// follows. Else the initial is written, but for the silent one, and then
/// vowel and final, contracted where the code has a contraction.
pub open spec fn spec_encode_korean_char(k: KoreanChar) -> Result<Seq<u8>, EncodeError> {
    match spec_split_korean_jauem(k.cho) {
        None => Err(EncodeError::BadSyllableSplit(k.cho)),
        Some((cho, second)) => {
            let mark = if second is Some {
                seq![DOUBLE_MARK]
            } else {
                Seq::empty()
            };
            if cho == 'ㄱ' && k.jung == 'ㅓ' && k.jong == Some('ㅅ') {
                Ok(mark + seq![56u8, 14u8])
            } else if k.jung == 'ㅏ' && spec_open_shortcut(cho) is Some {
                match spec_final_cells(k.jong) {
                    Ok(f) => Ok(mark + seq![spec_open_shortcut(cho)->0] + f),
                    Err(e) => Err(e),
                }
            } else {
                let initial = if cho == 'ㅇ' {
                    Some(Seq::empty())
                } else {
                    match spec_encode_choseong(cho) {
                        Some(b) => Some(seq![b]),
                        None => None,
                    }
                };
                match initial {
                    None => Err(EncodeError::MissingKoreanComponent(cho)),
                    Some(c) => match spec_rime_cells(cho, k.jung, k.jong) {
                        Ok(r) => Ok(mark + c + r),
                        Err(e) => Err(e),
                    },
                }
            }
        },
    }
}

/// Computes `spec_encode_korean_char`.
pub fn encode_korean_char(k: &KoreanChar) -> (r: Result<Vec<u8>, EncodeError>)
    ensures
        cells_res(r, spec_encode_korean_char(*k)),
{
    let (cho, second) = split_korean_jauem(k.cho)?;
    let mut out: Vec<u8> = Vec::new();
    if second.is_some() {
        out.push(DOUBLE_MARK);
    }
    let ghost mark = out@;
    let is_geot = match k.jong {
        Some(j) => cho == 'ㄱ' && k.jung == 'ㅓ' && j == 'ㅅ',
        None => false,
    };
    if is_geot {
        out.push(56u8);
        out.push(14u8);
        return Ok(out);
    }
    if k.jung == 'ㅏ' {
        match open_shortcut(cho) {
            Some(b) => {
                out.push(b);
                push_final(&mut out, k.jong)?;
                return Ok(out);
            },
            None => {},
        }
    }
    if cho != 'ㅇ' {
        let b = encode_choseong(cho)?;
        out.push(b);
    }
    push_rime(&mut out, cho, k.jung, k.jong)?;
    Ok(out)
}

} // verus!
