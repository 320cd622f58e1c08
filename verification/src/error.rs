//! The reasons for which a text is not a roll.

use vstd::prelude::*;

verus! {

/// Why a text could not be read as a roll.
///
/// A roll is written `XdY`, `XdY+Z` or `XdY-Z`, each number without leading
/// zeros. The three `Missing*` variants say that a number was expected and
/// no digit was found; the three size variants say that a well-written
/// number does not fit its field; `InvalidFormat` covers every other
/// departure from the notation.
#[derive(Debug, Clone, Copy, PartialEq, Eq, Structural)]
pub enum EvError {
    /// The text departs from the notation in some other way.
    InvalidFormat,
    /// No digit where the number of dice should stand.
    MissingNumberOfDice,
    /// No digit after the `d`.
    MissingNumberOfSides,
    /// No digit after the sign of the bonus.
    MissingExtra,
    /// The number of dice is above 65535.
    TooManyDice,
    /// The number of sides is above 65535.
    TooManySides,
    /// The bonus is outside -32768..=32767.
    ExtraTooLarge,
}

impl EvError {
    /// The words that describe this error.
    pub open spec fn spec_description(self) -> Seq<char> {
        match self {
            EvError::InvalidFormat => "invalid format"@,
            EvError::MissingNumberOfDice => "missing number of dice"@,
            EvError::MissingNumberOfSides => "missing number of sides"@,
            EvError::MissingExtra => "missing bonus"@,
            EvError::TooManyDice => "too many dice"@,
            EvError::TooManySides => "too many sides"@,
            EvError::ExtraTooLarge => "bonus too large"@,
        }
    }

    /// A short description of the error, fit for a diagnostic.
    pub fn description(&self) -> (text: &'static str)
        ensures
            text@ == self.spec_description(),
    {
        match self {
            EvError::InvalidFormat => "invalid format",
            EvError::MissingNumberOfDice => "missing number of dice",
            EvError::MissingNumberOfSides => "missing number of sides",
            EvError::MissingExtra => "missing bonus",
            EvError::TooManyDice => "too many dice",
            EvError::TooManySides => "too many sides",
            EvError::ExtraTooLarge => "bonus too large",
        }
    }
}

} // verus!
