//! From a date and a ten-character seed to the password of that day.
//!
//! The date gives eight numbers, the date key. Date key and seed are summed
//! place by place and closed with a checksum, the ten values are reordered by
//! one of six fixed permutations, the seed is added once more, and each of the
//! ten results picks one symbol of the alphabet.

use crate::calendar::CalendarDate;
use crate::date_text::{is_digit, validate_date, validate_date_spec};
use crate::seed::PADDED_LEN;
use crate::text::push_char;
use crate::vals::{ALPHANUM, TABLE1, TABLE2};
use vstd::arithmetic::div_mod::lemma_fundamental_div_mod;
use vstd::prelude::*;

verus! {

/// The numbers of a vector, as mathematical integers.
pub open spec fn ints(values: Seq<u32>) -> Seq<int> {
    Seq::new(values.len(), |i: int| values[i] as int)
}

/// Whether every value of a sequence lies in `0..bound`.
pub open spec fn all_below(values: Seq<int>, bound: int) -> bool {
    forall|i: int| 0 <= i < values.len() ==> 0 <= #[trigger] values[i] < bound
}

/// A digit or a capital letter: a symbol that passwords are written in.
pub open spec fn is_alphanum(c: char) -> bool {
    is_digit(c) || ('A' <= c && c <= 'Z')
}

/// `total - day` brought into `0..36`: 36 is added first where the difference
/// is negative.
pub open spec fn wrapped_difference(total: int, day: int) -> int {
    let raw: int = total - day;
    if raw < 0 {
        (raw + 36) % 36
    } else {
        raw % 36
    }
}

/// The eight numbers that a date gives: five from the weekday's row of
/// [`TABLE1`], the day of the month, and two that mix the last two digits of
/// the year with month and day.
pub open spec fn date_key_spec(weekday: int, year: int, month: int, day: int) -> Seq<int> {
    let total: int = year % 100 + month;
    Seq::new(
        8,
        |i: int|
            if i < 5 {
                TABLE1[weekday][i] as int
            } else if i == 5 {
                day
            } else if i == 6 {
                wrapped_difference(total, day)
            } else {
                ((3 + total % 12) * day) % 37 % 36
            },
    )
}

/// The character codes of a text.
pub open spec fn char_codes(text: Seq<char>) -> Seq<int> {
    Seq::new(text.len(), |i: int| text[i] as int)
}

/// The fraction `numerator / denominator` brought to the nearest whole number.
/// A fraction that lies halfway between two whole numbers goes to the higher
/// one.
pub open spec fn round_half_up_spec(numerator: int, denominator: int) -> int {
    let whole: int = numerator / denominator;
    if 2 * (numerator % denominator) < denominator {
        whole
    } else {
        whole + 1
    }
}

/// The checksum stage: the sums of date key and seed codes modulo 36 in the
/// first eight places, then the sum of those eight modulo 36, then the square
/// of that checksum's remainder modulo 6, rounded to the nearest whole number.
pub open spec fn checksum_stage_spec(key: Seq<int>, codes: Seq<int>) -> Seq<int> {
    let sums = Seq::new(8, |i: int| (key[i] + codes[i] % 36) % 36);
    let checksum: int = (sums[0] + sums[1] + sums[2] + sums[3] + sums[4] + sums[5] + sums[6]
        + sums[7]) % 36;
    sums.push(checksum).push(round_half_up_spec((checksum % 6) * (checksum % 6), 1))
}


/// The permutation stage: the checksum in place 8 picks a row of [`TABLE2`],
/// and place `i` of the result takes the value from the place that the row
/// names at `i`.
pub open spec fn permutation_stage_spec(stage: Seq<int>) -> Seq<int> {
    Seq::new(10, |i: int| stage[TABLE2[stage[8] % 6][i] as int])
}

/// The final offset stage: each mixed value plus the code of the seed's
/// character at the same place, modulo 36.
pub open spec fn final_offset_stage_spec(codes: Seq<int>, mixed: Seq<int>) -> Seq<int> {
    Seq::new(10, |i: int| (codes[i] + mixed[i]) % 36)
}

/// The symbols of [`ALPHANUM`] that ten values below 36 pick.
pub open spec fn password_chars(finals: Seq<int>) -> Seq<char> {
    Seq::new(10, |i: int| ALPHANUM[finals[i]])
}

/// The password for a day, given its weekday (0 for Monday), and a
/// ten-character seed.
pub open spec fn password_spec(weekday: int, date: CalendarDate, padded: Seq<char>) -> Seq<char> {
    let key = date_key_spec(weekday, date.year as int, date.month as int, date.day as int);
    let codes = char_codes(padded);
    let stage = checksum_stage_spec(key, codes);
    let mixed = permutation_stage_spec(stage);
    password_chars(final_offset_stage_spec(codes, mixed))
}

/// The password of the day `date` for a ten-character seed.
pub open spec fn potd_spec(date: CalendarDate, padded: Seq<char>) -> Seq<char> {
    password_spec(date.weekday(), date, padded)
}

/// The date key of a day: see [`date_key_spec`].
pub fn date_key(weekday: u8, date: &CalendarDate) -> (key: Vec<u32>)
    requires
        weekday < 7,
        date.wf(),
    ensures
        key@.len() == 8,
        ints(key@) == date_key_spec(
            weekday as int,
            date.year as int,
            date.month as int,
            date.day as int,
        ),
        all_below(ints(key@), 36),
{
    let day: u32 = date.day as u32;
    let total: u32 = (date.year % 100) as u32 + date.month as u32;
    let mut key: Vec<u32> = Vec::new();
    let mut i: usize = 0;
    while i < 5
        invariant
            weekday < 7,
            i <= 5,
            key@.len() == i,
            forall|k: int| 0 <= k < i ==> key@[k] == TABLE1[weekday as int][k],
            forall|k: int| 0 <= k < i ==> key@[k] < 36,
        decreases 5 - i,
    {
        key.push(TABLE1[weekday as usize][i]);
        i += 1;
    }
    key.push(day);
    let raw: i32 = total as i32 - day as i32;
    if raw < 0 {
        key.push(((raw + 36) % 36) as u32);
    } else {
        key.push((raw % 36) as u32);
    }
    let factor: u32 = 3 + total % 12;
    assert(factor * day <= 14 * 31) by (nonlinear_arith)
        requires
            factor <= 14,
            day <= 31,
    ;
    key.push((factor * day) % 37 % 36);
    assert(ints(key@) =~= date_key_spec(
        weekday as int,
        date.year as int,
        date.month as int,
        date.day as int,
    ));
    key
}

/// The character codes of a text, one number per character.
pub fn seed_codes(padded: &str) -> (codes: Vec<u32>)
    ensures
        codes@.len() == padded@.len(),
        ints(codes@) == char_codes(padded@),
{
    let n: usize = padded.unicode_len();
    let mut codes: Vec<u32> = Vec::new();
    let mut i: usize = 0;
    while i < n
        invariant
            n == padded@.len(),
            i <= n,
            codes@.len() == i,
            forall|k: int| 0 <= k < i ==> codes@[k] as int == padded@[k] as int,
        decreases n - i,
    {
        codes.push(padded.get_char(i) as u32);
        i += 1;
    }
    assert(ints(codes@) =~= char_codes(padded@));
    codes
}

/// Brings `numerator / denominator` to the nearest whole number, halves
/// upwards: see [`round_half_up_spec`].
pub fn round_half_up(numerator: u32, denominator: u32) -> (rounded: u32)
    requires
        denominator > 0,
    ensures
        rounded == round_half_up_spec(numerator as int, denominator as int),
{
    let whole: u32 = numerator / denominator;
    let rest: u32 = numerator % denominator;
    if rest < denominator - rest {
        whole
    } else {
        proof {
            lemma_fundamental_div_mod(numerator as int, denominator as int);
        }
        assert(whole < u32::MAX) by (nonlinear_arith)
            requires
                denominator >= 2,
                denominator * whole <= numerator,
                numerator <= u32::MAX,
        ;
        whole + 1
    }
}

/// The checksum stage: see [`checksum_stage_spec`].
///
/// The last value is rounded as devices round it. It is the square of a whole
/// number, which the rounding leaves as it is.
pub fn checksum_stage(key: &Vec<u32>, codes: &Vec<u32>) -> (stage: Vec<u32>)
    requires
        key@.len() == 8,
        codes@.len() >= 8,
        all_below(ints(key@), 36),
    ensures
        stage@.len() == 10,
        ints(stage@) == checksum_stage_spec(ints(key@), ints(codes@)),
        all_below(ints(stage@), 36),
{
    let mut stage: Vec<u32> = Vec::new();
    let mut i: usize = 0;
    while i < 8
        invariant
            key@.len() == 8,
            codes@.len() >= 8,
            all_below(ints(key@), 36),
            i <= 8,
            stage@.len() == i,
            forall|k: int|
                0 <= k < i ==> stage@[k] as int == (ints(key@)[k] + ints(codes@)[k] % 36) % 36,
        decreases 8 - i,
    {
        assert(0 <= ints(key@)[i as int] < 36);
        stage.push((key[i] + codes[i] % 36) % 36);
        i += 1;
    }
    let checksum: u32 = (stage[0] + stage[1] + stage[2] + stage[3] + stage[4] + stage[5] + stage[6]
        + stage[7]) % 36;
    let index: u32 = checksum % 6;
    assert(index * index <= 25) by (nonlinear_arith)
        requires
            index <= 5,
    ;
    stage.push(checksum);
    stage.push(round_half_up(index * index, 1));
    assert(ints(stage@) =~= checksum_stage_spec(ints(key@), ints(codes@)));
    stage
}

/// The permutation stage: see [`permutation_stage_spec`].
pub fn permutation_stage(stage: &Vec<u32>) -> (mixed: Vec<u32>)
    requires
        stage@.len() == 10,
    ensures
        mixed@.len() == 10,
        ints(mixed@) == permutation_stage_spec(ints(stage@)),
        all_below(ints(stage@), 36) ==> all_below(ints(mixed@), 36),
{
    let row: usize = (stage[8] % 6) as usize;
    let mut mixed: Vec<u32> = Vec::new();
    let mut i: usize = 0;
    while i < 10
        invariant
            stage@.len() == 10,
            row == stage@[8] % 6,
            i <= 10,
            mixed@.len() == i,
            forall|k: int| 0 <= k < i ==> mixed@[k] == stage@[TABLE2[row as int][k] as int],
            forall|k: int| 0 <= k < i ==> TABLE2[row as int][k] < 10,
        decreases 10 - i,
    {
        mixed.push(stage[TABLE2[row][i]]);
        i += 1;
    }
    assert(ints(mixed@) =~= permutation_stage_spec(ints(stage@)));
    assert(all_below(ints(stage@), 36) ==> all_below(ints(mixed@), 36)) by {
        if all_below(ints(stage@), 36) {
            assert forall|k: int| 0 <= k < 10 implies 0 <= #[trigger] ints(mixed@)[k] < 36 by {
                let from: int = TABLE2[row as int][k] as int;
                assert(ints(mixed@)[k] == ints(stage@)[from]);
            }
        }
    }
    mixed
}

/// The final offset stage: see [`final_offset_stage_spec`].
pub fn final_offset_stage(codes: &Vec<u32>, mixed: &Vec<u32>) -> (finals: Vec<u32>)
    requires
        codes@.len() == 10,
        mixed@.len() == 10,
    ensures
        finals@.len() == 10,
        ints(finals@) == final_offset_stage_spec(ints(codes@), ints(mixed@)),
        all_below(ints(finals@), 36),
{
    let mut finals: Vec<u32> = Vec::new();
    let mut i: usize = 0;
    while i < 10
        invariant
            codes@.len() == 10,
            mixed@.len() == 10,
            i <= 10,
            finals@.len() == i,
            forall|k: int| 0 <= k < i ==> finals@[k] as int == (codes@[k] + mixed@[k]) % 36,
        decreases 10 - i,
    {
        let total: u64 = codes[i] as u64 + mixed[i] as u64;
        finals.push((total % 36) as u32);
        i += 1;
    }
    assert(ints(finals@) =~= final_offset_stage_spec(ints(codes@), ints(mixed@)));
    finals
}

/// Every symbol of the alphabet is a digit or a capital letter.
pub proof fn lemma_alphabet(index: int)
    requires
        0 <= index < 36,
    ensures
        is_alphanum(ALPHANUM[index]),
{
}

/// The password that ten values below 36 spell: see [`password_chars`].
pub fn to_password(finals: &Vec<u32>) -> (password: String)
    requires
        finals@.len() == 10,
        all_below(ints(finals@), 36),
    ensures
        password@ == password_chars(ints(finals@)),
        password@.len() == 10,
        forall|i: int| 0 <= i < 10 ==> is_alphanum(#[trigger] password@[i]),
{
    let mut password = String::new();
    let mut i: usize = 0;
    while i < 10
        invariant
            finals@.len() == 10,
            all_below(ints(finals@), 36),
            i <= 10,
            password@.len() == i,
            forall|k: int| 0 <= k < i ==> password@[k] == ALPHANUM[finals@[k] as int],
        decreases 10 - i,
    {
        assert(0 <= ints(finals@)[i as int] < 36);
        push_char(&mut password, ALPHANUM[finals[i] as usize]);
        i += 1;
    }
    assert(password@ =~= password_chars(ints(finals@)));
    assert forall|k: int| 0 <= k < 10 implies is_alphanum(#[trigger] password@[k]) by {
        assert(0 <= ints(finals@)[k] < 36);
        lemma_alphabet(finals@[k] as int);
    }
    password
}

/// A password has ten symbols, each a digit or a capital letter.
pub proof fn lemma_password_shape(weekday: int, date: CalendarDate, padded: Seq<char>)
    requires
        0 <= weekday < 7,
        date.wf(),
        padded.len() == PADDED_LEN,
    ensures
        password_spec(weekday, date, padded).len() == 10,
        forall|i: int|
            0 <= i < 10 ==> is_alphanum(#[trigger] password_spec(weekday, date, padded)[i]),
{
    let key = date_key_spec(weekday, date.year as int, date.month as int, date.day as int);
    let codes = char_codes(padded);
    let mixed = permutation_stage_spec(checksum_stage_spec(key, codes));
    let finals = final_offset_stage_spec(codes, mixed);
    assert forall|i: int| 0 <= i < 10 implies is_alphanum(
        #[trigger] password_spec(weekday, date, padded)[i],
    ) by {
        assert(0 <= finals[i] < 36);
        lemma_alphabet(finals[i]);
    }
}

/// Derives the password for a day whose weekday is known.
///
/// `weekday` counts the days since Monday. `padded_seed` is a seed in its
/// ten-character form.
pub fn derive_password(weekday: u8, date: &CalendarDate, padded_seed: &str) -> (password: String)
    requires
        weekday < 7,
        date.wf(),
        padded_seed@.len() == PADDED_LEN,
    ensures
        password@ == password_spec(weekday as int, *date, padded_seed@),
        password@.len() == 10,
        forall|i: int| 0 <= i < 10 ==> is_alphanum(#[trigger] password@[i]),
{
    let key = date_key(weekday, date);
    let codes = seed_codes(padded_seed);
    let stage = checksum_stage(&key, &codes);
    let mixed = permutation_stage(&stage);
    let finals = final_offset_stage(&codes, &mixed);
    to_password(&finals)
}

/// Derives the password of the day `date` for a seed in its ten-character
/// form.
pub fn derive_from_date(date: &CalendarDate, padded_seed: &str) -> (password: String)
    requires
        date.wf(),
        padded_seed@.len() == PADDED_LEN,
    ensures
        password@ == potd_spec(*date, padded_seed@),
        password@.len() == 10,
        forall|i: int| 0 <= i < 10 ==> is_alphanum(#[trigger] password@[i]),
{
    derive_password(date.weekday_from_monday(), date, padded_seed)
}

/// Derives the password of the day that `date` names, for a seed in its
/// ten-character form.
pub fn derive_from_input(date: &str, padded_seed: &str) -> (password: String)
    requires
        validate_date_spec(date@) is Ok,
        padded_seed@.len() == PADDED_LEN,
    ensures
        password@ == potd_spec(validate_date_spec(date@)->Ok_0, padded_seed@),
        password@.len() == 10,
        forall|i: int| 0 <= i < 10 ==> is_alphanum(#[trigger] password@[i]),
{
    match validate_date(date) {
        Ok(day) => derive_from_date(&day, padded_seed),
        Err(_) => String::new(),
    }
}

} // verus!
