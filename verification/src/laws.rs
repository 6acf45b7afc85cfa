//! What holds of the library as a whole, proved from the contracts of its
//! functions.

use crate::calendar::{lemma_order_is_day_order, CalendarDate};
use crate::cipher::seed_to_des_spec;
use crate::date_range::{dates_between, lemma_plus_days};
use crate::date_text::{lemma_date_text_round_trip, validate_date_spec};
use crate::error::PotdError;
use crate::mixing::{checksum_stage_spec, is_alphanum, lemma_password_shape, round_half_up_spec};
use crate::potd::{days_apart, generate_multiple_spec, generate_spec, validate_range_spec};
use crate::seed::{
    lemma_default_seed_len, lemma_pad_of_ten, lemma_padded_len, pad_seed_spec, seed_length,
    validate_seed_spec,
};
use crate::text::text_result;
use crate::vals::DEFAULT_SEED;
use vstd::prelude::*;

verus! {

/// Two calls of `generate` with the same date and the same seed return the
/// same result.
pub proof fn law_generate_is_deterministic(
    date: Seq<char>,
    seed: Seq<char>,
    first: Result<String, PotdError>,
    second: Result<String, PotdError>,
)
    requires
        text_result(first) == generate_spec(date, seed),
        text_result(second) == generate_spec(date, seed),
    ensures
        text_result(first) == text_result(second),
{
}

/// Every password has ten symbols, and each of them is a digit or a capital
/// letter.
pub proof fn law_password_shape(date: Seq<char>, seed: Seq<char>)
    ensures
        generate_spec(date, seed) matches Ok(password) ==> password.len() == 10 && forall|i: int|
            0 <= i < 10 ==> is_alphanum(#[trigger] password[i]),
{
    if generate_spec(date, seed) is Ok {
        let day = validate_date_spec(date)->Ok_0;
        let padded = validate_seed_spec(seed)->Ok_0;
        lemma_padded_len(seed);
        lemma_password_shape(day.weekday(), day, padded);
    }
}

/// The table of a range has one entry for each day from the first date to the
/// last, which is one more than the days between them. It starts with the
/// first date and ends with the last, its dates ascend, and each entry holds
/// what `generate` returns for its date and the same seed.
pub proof fn law_range_agrees_with_generate(begin: Seq<char>, end: Seq<char>, seed: Seq<char>)
    requires
        generate_multiple_spec(begin, end, seed) is Ok,
    ensures
        ({
            let table = generate_multiple_spec(begin, end, seed)->Ok_0;
            let first = validate_date_spec(begin)->Ok_0;
            let last = validate_date_spec(end)->Ok_0;
            &&& table.len() == days_apart(first, last) + 1
            &&& table[0].0 == begin
            &&& table[table.len() - 1].0 == end
            &&& forall|k: int|
                0 <= k < table.len() ==> generate_spec((#[trigger] table[k]).0, seed) == Ok::<
                    Seq<char>,
                    PotdError,
                >(table[k].1)
            &&& forall|j: int, k: int|
                0 <= j < k < table.len() ==> (validate_date_spec(
                    (#[trigger] table[j]).0,
                )->Ok_0).is_before(validate_date_spec((#[trigger] table[k]).0)->Ok_0)
        }),
{
    let table = generate_multiple_spec(begin, end, seed)->Ok_0;
    let first = validate_date_spec(begin)->Ok_0;
    let last = validate_date_spec(end)->Ok_0;
    let days = dates_between(first, last);
    assert forall|k: int| 0 <= k < table.len() implies validate_date_spec(
        (#[trigger] table[k]).0,
    ) == Ok::<CalendarDate, PotdError>(days[k]) && days[k].wf() && days[k].day_number()
        == first.day_number() + k by {
        lemma_plus_days(first, last, k as nat);
        lemma_date_text_round_trip(days[k]);
    }
    crate::date_text::lemma_date_text_of_parsed(begin);
    crate::date_text::lemma_date_text_of_parsed(end);
    lemma_plus_days(first, last, 0);
    lemma_plus_days(first, last, (table.len() - 1) as nat);
    assert forall|j: int, k: int| 0 <= j < k < table.len() implies (validate_date_spec(
        (#[trigger] table[j]).0,
    )->Ok_0).is_before(validate_date_spec((#[trigger] table[k]).0)->Ok_0) by {
        lemma_order_is_day_order(days[j], days[k]);
    }
}

/// Rounding leaves every whole number as it is, and so the tenth value of the
/// checksum stage is the square itself.
pub proof fn law_rounding_keeps_whole_numbers(value: int, key: Seq<int>, codes: Seq<int>)
    ensures
        round_half_up_spec(value, 1) == value,
        ({
            let stage = checksum_stage_spec(key, codes);
            stage[9] == (stage[8] % 6) * (stage[8] % 6)
        }),
{
}

/// The default seed is its own ten-character form, and so is the ten-character
/// form of every accepted seed.
pub proof fn law_normal_form_is_stable(seed: Seq<char>)
    ensures
        validate_seed_spec(DEFAULT_SEED@) == Ok::<Seq<char>, PotdError>(DEFAULT_SEED@),
        pad_seed_spec(DEFAULT_SEED@) == DEFAULT_SEED@,
        validate_seed_spec(seed) matches Ok(padded) ==> pad_seed_spec(padded) == padded,
{
    lemma_default_seed_len();
    lemma_pad_of_ten(DEFAULT_SEED@);
    if validate_seed_spec(seed) is Ok {
        lemma_padded_len(seed);
        lemma_pad_of_ten(validate_seed_spec(seed)->Ok_0);
    }
}

/// Of two dates that exist, the second must lie 1 to 365 days after the first:
/// a range that ends on or before its first day, or 366 days after it, is
/// turned down as `InvalidDateRange`, and one that ends 365 days after it is
/// accepted.
pub proof fn law_range_bounds(begin: Seq<char>, end: Seq<char>, seed: Seq<char>)
    requires
        validate_date_spec(begin) is Ok,
        validate_date_spec(end) is Ok,
    ensures
        ({
            let first = validate_date_spec(begin)->Ok_0;
            let last = validate_date_spec(end)->Ok_0;
            let turned_down = Err::<Seq<(Seq<char>, Seq<char>)>, PotdError>(
                PotdError::InvalidDateRange,
            );
            &&& end == begin ==> generate_multiple_spec(begin, end, seed) == turned_down
            &&& last.is_before(first) ==> generate_multiple_spec(begin, end, seed) == turned_down
            &&& days_apart(first, last) == 366 ==> generate_multiple_spec(begin, end, seed)
                == turned_down
            &&& days_apart(first, last) == 365 ==> validate_range_spec(begin, end) == Ok::<
                bool,
                PotdError,
            >(true)
            &&& days_apart(first, last) == 365 && validate_seed_spec(seed) is Ok
                ==> generate_multiple_spec(begin, end, seed) is Ok
            &&& generate_multiple_spec(begin, end, seed) == turned_down <==> !(0 < days_apart(
                first,
                last,
            ) <= 365)
        }),
{
    let first = validate_date_spec(begin)->Ok_0;
    let last = validate_date_spec(end)->Ok_0;
    lemma_order_is_day_order(last, first);
}

/// A seed of 3 or of 9 bytes is turned down as `InvalidSeedLength`, and one of
/// 4 or of 8 bytes is accepted. In general a seed is accepted where it is the
/// default seed or has 4 to 8 bytes, and nowhere else; and the seeds that have
/// an encrypted form are the seeds that are accepted.
pub proof fn law_seed_bounds(seed: Seq<char>)
    ensures
        seed_length(seed) == 3 || seed_length(seed) == 9 ==> validate_seed_spec(seed) == Err::<
            Seq<char>,
            PotdError,
        >(PotdError::InvalidSeedLength),
        seed_length(seed) == 4 || seed_length(seed) == 8 ==> validate_seed_spec(seed) is Ok,
        validate_seed_spec(seed) is Ok <==> seed == DEFAULT_SEED@ || 4 <= seed_length(seed) <= 8,
        seed_to_des_spec(seed) is Ok <==> validate_seed_spec(seed) is Ok,
        validate_seed_spec(seed) is Err ==> validate_seed_spec(seed) == Err::<
            Seq<char>,
            PotdError,
        >(PotdError::InvalidSeedLength),
{
    lemma_default_seed_len();
}

} // verus!
