//! Why an encoding fails.

use vstd::prelude::*;
use vstd::string::StringExecFns;

verus! {

/// Why a text cannot be encoded.
#[derive(Clone, Copy, Debug, PartialEq, Eq, Structural)]
pub enum EncodeError {
    /// The character belongs to no class that the encoder knows.
    UnknownCharacter(char),
    /// The punctuation mark has no cells in Korean context.
    MissingSymbolMapping(char),
    /// The letter has no cells in the place where it was asked for.
    MissingKoreanComponent(char),
    /// The letter is no initial consonant, so it has no plain form.
    BadSyllableSplit(char),
    /// The pattern for inline fractions was refused by the pattern engine.
    BadPattern,
}

impl EncodeError {
    /// The message that the public functions hand out for this failure.
    pub open spec fn spec_message(self) -> Seq<char> {
        match self {
            EncodeError::UnknownCharacter(_) => "Invalid character"@,
            EncodeError::MissingSymbolMapping(_) => "Invalid symbol character"@,
            EncodeError::MissingKoreanComponent(_) => "Invalid Korean letter"@,
            EncodeError::BadSyllableSplit(_) => "Invalid Korean consonant"@,
            EncodeError::BadPattern => "Invalid fraction pattern"@,
        }
    }

    /// The message for this failure.
    pub fn message(&self) -> (s: String)
        ensures
            s@ == self.spec_message(),
    {
        match self {
            EncodeError::UnknownCharacter(_) => String::from_str("Invalid character"),
            EncodeError::MissingSymbolMapping(_) => String::from_str("Invalid symbol character"),
            EncodeError::MissingKoreanComponent(_) => String::from_str("Invalid Korean letter"),
            EncodeError::BadSyllableSplit(_) => String::from_str("Invalid Korean consonant"),
            EncodeError::BadPattern => String::from_str("Invalid fraction pattern"),
        }
    }
}

/// `r` holds the cells `want`, or the error `e` where there are none.
pub open spec fn cells_or(
    r: Result<Vec<u8>, EncodeError>,
    want: Option<Seq<u8>>,
    e: EncodeError,
) -> bool {
    match want {
        Some(s) => r matches Ok(v) && v@ =~= s,
        None => r matches Err(got) && got == e,
    }
}

/// `r` holds the cells `want`, or nothing where there are none.
pub open spec fn cells_opt(r: Option<Vec<u8>>, want: Option<Seq<u8>>) -> bool {
    match want {
        Some(s) => r matches Some(v) && v@ =~= s,
        None => r is None,
    }
}

} // verus!
