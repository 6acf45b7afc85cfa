//! The ways in which a request can be turned down.

use vstd::prelude::*;

verus! {

/// Why a date, a seed or a range of dates was not accepted.
#[derive(Clone, Copy, Debug, PartialEq, Eq, Structural)]
pub enum PotdError {
    /// The text is not four digits, a hyphen, two digits, a hyphen, two digits.
    InvalidDateFormat,
    /// The text has the right shape but names no day of the calendar.
    InvalidDateValue,
    /// The seed is neither the default seed nor four to eight bytes long.
    InvalidSeedLength,
    /// The last day is not after the first, or more than 365 days after it.
    InvalidDateRange,
}

impl PotdError {
    /// The sentence that [`PotdError::message`] returns.
    pub open spec fn message_text(self) -> Seq<char> {
        match self {
            PotdError::InvalidDateFormat => "Invalid date format, must be YYYY-MM-DD"@,
            PotdError::InvalidDateValue => "Invalid date, no such day in the calendar"@,
            PotdError::InvalidSeedLength => "Seed should be >= 4 and <= 8 characters long."@,
            PotdError::InvalidDateRange => "Invalid date range. The end date must be 1 to 365 days after the beginning date."@,
        }
    }

    /// A sentence for people, one per kind of error.
    pub fn message(&self) -> (text: String)
        ensures
            text@ == self.message_text(),
    {
        match self {
            PotdError::InvalidDateFormat => String::from_str(
                "Invalid date format, must be YYYY-MM-DD",
            ),
            PotdError::InvalidDateValue => String::from_str(
                "Invalid date, no such day in the calendar",
            ),
            PotdError::InvalidSeedLength => String::from_str(
                "Seed should be >= 4 and <= 8 characters long.",
            ),
            PotdError::InvalidDateRange => String::from_str(
                "Invalid date range. The end date must be 1 to 365 days after the beginning date.",
            ),
        }
    }
}

} // verus!
