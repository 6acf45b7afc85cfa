//! The password of the day: for one date, and for every date of a range.

use crate::calendar::CalendarDate;
use crate::date_range::{dates_between, DateRange};
use crate::date_text::{date_text, validate_date, validate_date_spec};
use crate::error::PotdError;
use crate::mixing::{derive_from_date, derive_from_input, is_alphanum, potd_spec};
use crate::seed::{validate_seed, validate_seed_spec, PADDED_LEN};
use crate::text::text_result;
use vstd::prelude::*;

verus! {

/// The longest range that [`generate_multiple`] accepts, in days from the
/// first date to the last.
pub const MAX_RANGE_DAYS: i64 = 365;

/// What [`generate`] returns for a date and a seed: the date is checked
/// first, then the seed.
pub open spec fn generate_spec(date: Seq<char>, seed: Seq<char>) -> Result<Seq<char>, PotdError> {
    match validate_date_spec(date) {
        Err(e) => Err(e),
        Ok(day) => match validate_seed_spec(seed) {
            Err(e) => Err(e),
            Ok(padded) => Ok(potd_spec(day, padded)),
        },
    }
}

/// The password of the day `date` for `seed`.
///
/// `date` is written as `YYYY-MM-DD`. `seed` is the default seed or has 4 to 8
/// bytes. The password has ten symbols, digits and capital letters.
pub fn generate(date: &str, seed: &str) -> (res: Result<String, PotdError>)
    ensures
        text_result(res) == generate_spec(date@, seed@),
        res matches Ok(password) ==> password@.len() == 10 && forall|i: int|
            0 <= i < 10 ==> is_alphanum(#[trigger] password@[i]),
{
    match validate_date(date) {
        Err(e) => Err(e),
        Ok(_) => match validate_seed(seed) {
            Err(e) => Err(e),
            Ok(padded) => Ok(derive_from_input(date, padded.as_str())),
        },
    }
}

/// How many days `last` lies after `first`.
pub open spec fn days_apart(first: CalendarDate, last: CalendarDate) -> int {
    last.day_number() - first.day_number()
}

/// Whether `last` lies after `first`, and by no more than 365 days.
pub open spec fn is_valid_span(first: CalendarDate, last: CalendarDate) -> bool {
    0 < days_apart(first, last) <= MAX_RANGE_DAYS
}

/// What [`validate_range`] returns: the first date is checked first, then the
/// last, then how far they lie apart.
pub open spec fn validate_range_spec(begin: Seq<char>, end: Seq<char>) -> Result<bool, PotdError> {
    match validate_date_spec(begin) {
        Err(e) => Err(e),
        Ok(first) => match validate_date_spec(end) {
            Err(e) => Err(e),
            Ok(last) => if is_valid_span(first, last) {
                Ok(true)
            } else {
                Err(PotdError::InvalidDateRange)
            },
        },
    }
}

/// Whether the days from `first` to `last` make a range that is accepted.
pub fn check_span(first: &CalendarDate, last: &CalendarDate) -> (ok: bool)
    requires
        first.wf(),
        last.wf(),
    ensures
        ok == is_valid_span(*first, *last),
{
    let days: i64 = first.days_until(last);
    0 < days && days <= MAX_RANGE_DAYS
}

/// Checks that both texts name dates and that `date_end` lies 1 to 365 days
/// after `date_begin`. Returns `Ok(true)` where they do.
pub fn validate_range(date_begin: &str, date_end: &str) -> (res: Result<bool, PotdError>)
    ensures
        res == validate_range_spec(date_begin@, date_end@),
{
    match validate_date(date_begin) {
        Err(e) => Err(e),
        Ok(first) => match validate_date(date_end) {
            Err(e) => Err(e),
            Ok(last) => if check_span(&first, &last) {
                Ok(true)
            } else {
                Err(PotdError::InvalidDateRange)
            },
        },
    }
}

/// The entry of one day in the table of a range: the date as text, and the
/// password of that day.
pub open spec fn range_entry(day: CalendarDate, padded: Seq<char>) -> (Seq<char>, Seq<char>) {
    (date_text(day), potd_spec(day, padded))
}

/// The table of a range: one entry for each day from `first` to `last`,
/// earlier days first.
pub open spec fn range_entries(first: CalendarDate, last: CalendarDate, padded: Seq<char>) -> Seq<
    (Seq<char>, Seq<char>),
> {
    Seq::new(
        dates_between(first, last).len(),
        |k: int| range_entry(dates_between(first, last)[k], padded),
    )
}

/// What [`generate_multiple`] returns: the dates are checked first, then how
/// far they lie apart, then the seed.
pub open spec fn generate_multiple_spec(
    begin: Seq<char>,
    end: Seq<char>,
    seed: Seq<char>,
) -> Result<Seq<(Seq<char>, Seq<char>)>, PotdError> {
    match validate_range_spec(begin, end) {
        Err(e) => Err(e),
        Ok(_) => match validate_seed_spec(seed) {
            Err(e) => Err(e),
            Ok(padded) => Ok(
                range_entries(
                    validate_date_spec(begin)->Ok_0,
                    validate_date_spec(end)->Ok_0,
                    padded,
                ),
            ),
        },
    }
}

/// The entries of a table, seen as pairs of character sequences.
pub open spec fn entry_texts(table: Seq<(String, String)>) -> Seq<(Seq<char>, Seq<char>)> {
    Seq::new(table.len(), |k: int| (table[k].0@, table[k].1@))
}

/// A result that holds a table, seen as the texts of its entries.
pub open spec fn table_result(res: Result<Vec<(String, String)>, PotdError>) -> Result<
    Seq<(Seq<char>, Seq<char>)>,
    PotdError,
> {
    match res {
        Ok(table) => Ok(entry_texts(table@)),
        Err(e) => Err(e),
    }
}

/// The passwords of all days from `date_begin` to `date_end`, both included.
///
/// The table holds one pair of date and password for each day, earlier days
/// first, so no date stands in it twice. `date_end` must lie 1 to 365 days
/// after `date_begin`.
pub fn generate_multiple(date_begin: &str, date_end: &str, seed: &str) -> (res: Result<
    Vec<(String, String)>,
    PotdError,
>)
    ensures
        table_result(res) == generate_multiple_spec(date_begin@, date_end@, seed@),
{
    let first = match validate_date(date_begin) {
        Err(e) => { return Err(e); },
        Ok(first) => first,
    };
    let last = match validate_date(date_end) {
        Err(e) => { return Err(e); },
        Ok(last) => last,
    };
    match validate_range(date_begin, date_end) {
        Err(e) => { return Err(e); },
        Ok(_) => {},
    }
    let padded = match validate_seed(seed) {
        Err(e) => { return Err(e); },
        Ok(padded) => padded,
    };
    let ghost days = dates_between(first, last);
    let mut range = DateRange::new(first, last);
    let mut table: Vec<(String, String)> = Vec::new();
    loop
        invariant
            range.wf(),
            padded@.len() == PADDED_LEN,
            table@.len() <= days.len(),
            range.remaining() == days.skip(table@.len() as int),
            forall|k: int|
                0 <= k < table@.len() ==> (#[trigger] table@[k]).0@ == date_text(days[k])
                    && table@[k].1@ == potd_spec(days[k], padded@),
        ensures
            table@.len() == days.len(),
        decreases range.remaining().len(),
    {
        match range.next() {
            None => {
                break ;
            },
            Some(day) => {
                let entry = (day.to_string(), derive_from_date(&day, padded.as_str()));
                table.push(entry);
                assert(days.skip(table@.len() - 1).drop_first() =~= days.skip(
                    table@.len() as int,
                ));
            },
        }
    }
    assert(entry_texts(table@) =~= range_entries(first, last, padded@));
    Ok(table)
}

/// A password of the day together with what it was derived from.
#[derive(Debug)]
pub struct PotD {
    /// The date, written as `YYYY-MM-DD`.
    pub valid_date: String,
    /// The seed as it was given.
    pub given_seed: String,
    /// The seed in its ten-character form.
    pub padded_seed: String,
    /// The password.
    pub potd: String,
}

/// The texts of a [`PotD`].
pub struct PotDView {
    pub valid_date: Seq<char>,
    pub given_seed: Seq<char>,
    pub padded_seed: Seq<char>,
    pub potd: Seq<char>,
}

impl View for PotD {
    type V = PotDView;

    open spec fn view(&self) -> PotDView {
        PotDView {
            valid_date: self.valid_date@,
            given_seed: self.given_seed@,
            padded_seed: self.padded_seed@,
            potd: self.potd@,
        }
    }
}

/// What [`PotD::new`] returns: here the seed is checked first, then the date.
pub open spec fn potd_new_spec(date: Seq<char>, seed: Seq<char>) -> Result<PotDView, PotdError> {
    match validate_seed_spec(seed) {
        Err(e) => Err(e),
        Ok(padded) => match validate_date_spec(date) {
            Err(e) => Err(e),
            Ok(day) => Ok(
                PotDView {
                    valid_date: date_text(day),
                    given_seed: seed,
                    padded_seed: padded,
                    potd: potd_spec(day, padded),
                },
            ),
        },
    }
}

impl PotD {
    /// Derives the password of the day `date` for `seed` and keeps it with the
    /// date, the seed and the seed's ten-character form.
    pub fn new(date: &str, seed: &str) -> (res: Result<PotD, PotdError>)
        ensures
            match res {
                Ok(record) => potd_new_spec(date@, seed@) == Ok::<PotDView, PotdError>(record@),
                Err(e) => potd_new_spec(date@, seed@) == Err::<PotDView, PotdError>(e),
            },
    {
        let given_seed = String::from_str(seed);
        let padded_seed = match validate_seed(seed) {
            Err(e) => { return Err(e); },
            Ok(padded) => padded,
        };
        let valid_date = match validate_date(date) {
            Err(e) => { return Err(e); },
            Ok(day) => day.to_string(),
        };
        let potd = match generate(date, seed) {
            Err(e) => { return Err(e); },
            Ok(password) => password,
        };
        Ok(PotD { valid_date, given_seed, padded_seed, potd })
    }
}

} // verus!
