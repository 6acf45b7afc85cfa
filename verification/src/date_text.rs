//! Dates written as `YYYY-MM-DD`.

use crate::calendar::{is_calendar_date, CalendarDate};
use crate::error::PotdError;
use crate::text::push_char;
use vstd::arithmetic::div_mod::lemma_fundamental_div_mod_converse;
use vstd::prelude::*;

verus! {

/// One of the characters `0` to `9`.
pub open spec fn is_digit(c: char) -> bool {
    '0' <= c && c <= '9'
}

/// The number that a digit stands for.
pub open spec fn digit_value(c: char) -> int {
    c as int - '0' as int
}

/// The digit that stands for a number from 0 to 9.
pub open spec fn digit_char(value: int) -> char {
    (value + '0' as int) as char
}

/// Whether position `i` of a date text holds what the shape asks for there: a
/// hyphen after the year and after the month, a digit elsewhere.
pub open spec fn fits_date_shape(i: int, c: char) -> bool {
    if i == 4 || i == 7 {
        c == '-'
    } else {
        is_digit(c)
    }
}

/// Four digits, a hyphen, two digits, a hyphen, two digits, and nothing else.
pub open spec fn is_date_shaped(text: Seq<char>) -> bool {
    &&& text.len() == 10
    &&& forall|i: int| 0 <= i < 10 ==> fits_date_shape(i, #[trigger] text[i])
}

/// The year that a date-shaped text names.
pub open spec fn year_of(text: Seq<char>) -> int {
    1000 * digit_value(text[0]) + 100 * digit_value(text[1]) + 10 * digit_value(text[2])
        + digit_value(text[3])
}

/// The month that a date-shaped text names.
pub open spec fn month_of(text: Seq<char>) -> int {
    10 * digit_value(text[5]) + digit_value(text[6])
}

/// The day of the month that a date-shaped text names.
pub open spec fn day_of(text: Seq<char>) -> int {
    10 * digit_value(text[8]) + digit_value(text[9])
}

/// What [`validate_date`] makes of a text: the date it names, or why it names
/// none.
pub open spec fn validate_date_spec(text: Seq<char>) -> Result<CalendarDate, PotdError> {
    if !is_date_shaped(text) {
        Err(PotdError::InvalidDateFormat)
    } else if !is_calendar_date(year_of(text), month_of(text), day_of(text)) {
        Err(PotdError::InvalidDateValue)
    } else {
        Ok(
            CalendarDate {
                year: year_of(text) as i32,
                month: month_of(text) as u8,
                day: day_of(text) as u8,
            },
        )
    }
}

/// A date written as `YYYY-MM-DD`, with leading zeros.
pub open spec fn date_text(date: CalendarDate) -> Seq<char> {
    let year: int = date.year as int;
    let month: int = date.month as int;
    let day: int = date.day as int;
    seq![
        digit_char(year / 1000),
        digit_char(year / 100 % 10),
        digit_char(year / 10 % 10),
        digit_char(year % 10),
        '-',
        digit_char(month / 10),
        digit_char(month % 10),
        '-',
        digit_char(day / 10),
        digit_char(day % 10),
    ]
}

/// A number below 10 and its digit stand for each other.
proof fn lemma_digit_of_value(value: int)
    requires
        0 <= value < 10,
    ensures
        is_digit(digit_char(value)),
        digit_value(digit_char(value)) == value,
{
}

/// A digit and its number stand for each other.
proof fn lemma_value_of_digit(c: char)
    requires
        is_digit(c),
    ensures
        0 <= digit_value(c) < 10,
        digit_char(digit_value(c)) == c,
{
}

/// The four decimal digits of a number below 10 000 make up the number.
proof fn lemma_four_digits(n: int)
    requires
        0 <= n <= 9999,
    ensures
        0 <= n / 1000 < 10,
        0 <= n / 100 % 10 < 10,
        0 <= n / 10 % 10 < 10,
        0 <= n % 10 < 10,
        1000 * (n / 1000) + 100 * (n / 100 % 10) + 10 * (n / 10 % 10) + n % 10 == n,
{
}

/// A number written with four decimal digits has those digits.
proof fn lemma_digits_of_four(a: int, b: int, c: int, d: int)
    requires
        0 <= a < 10,
        0 <= b < 10,
        0 <= c < 10,
        0 <= d < 10,
    ensures
        (1000 * a + 100 * b + 10 * c + d) / 1000 == a,
        (1000 * a + 100 * b + 10 * c + d) / 100 % 10 == b,
        (1000 * a + 100 * b + 10 * c + d) / 10 % 10 == c,
        (1000 * a + 100 * b + 10 * c + d) % 10 == d,
        0 <= 1000 * a + 100 * b + 10 * c + d <= 9999,
{
    let n: int = 1000 * a + 100 * b + 10 * c + d;
    lemma_fundamental_div_mod_converse(n, 1000, a, 100 * b + 10 * c + d);
    lemma_fundamental_div_mod_converse(n, 100, 10 * a + b, 10 * c + d);
    lemma_fundamental_div_mod_converse(10 * a + b, 10, a, b);
    lemma_fundamental_div_mod_converse(n, 10, 100 * a + 10 * b + c, d);
    lemma_fundamental_div_mod_converse(100 * a + 10 * b + c, 10, 10 * a + b, c);
}

/// Reading a date that was written by [`CalendarDate::to_string`] gives the
/// date back.
pub proof fn lemma_date_text_round_trip(date: CalendarDate)
    requires
        date.wf(),
    ensures
        is_date_shaped(date_text(date)),
        validate_date_spec(date_text(date)) == Ok::<CalendarDate, PotdError>(date),
{
    let text = date_text(date);
    let year: int = date.year as int;
    let month: int = date.month as int;
    let day: int = date.day as int;
    lemma_four_digits(year);
    lemma_four_digits(month);
    lemma_four_digits(day);
    lemma_digit_of_value(year / 1000);
    lemma_digit_of_value(year / 100 % 10);
    lemma_digit_of_value(year / 10 % 10);
    lemma_digit_of_value(year % 10);
    lemma_digit_of_value(month / 10);
    lemma_digit_of_value(month % 10);
    lemma_digit_of_value(day / 10);
    lemma_digit_of_value(day % 10);
    assert forall|i: int| 0 <= i < 10 implies fits_date_shape(i, #[trigger] text[i]) by {}
    assert(year_of(text) == year);
    assert(month_of(text) == month);
    assert(day_of(text) == day);
}

/// Writing a date that was read from a text gives the text back.
pub proof fn lemma_date_text_of_parsed(text: Seq<char>)
    requires
        validate_date_spec(text) is Ok,
    ensures
        date_text(validate_date_spec(text)->Ok_0) == text,
{
    let date = validate_date_spec(text)->Ok_0;
    assert(fits_date_shape(0, text[0]) && fits_date_shape(1, text[1]) && fits_date_shape(
        2,
        text[2],
    ) && fits_date_shape(3, text[3]) && fits_date_shape(4, text[4]) && fits_date_shape(
        5,
        text[5],
    ) && fits_date_shape(6, text[6]) && fits_date_shape(7, text[7]) && fits_date_shape(
        8,
        text[8],
    ) && fits_date_shape(9, text[9]));
    lemma_value_of_digit(text[0]);
    lemma_value_of_digit(text[1]);
    lemma_value_of_digit(text[2]);
    lemma_value_of_digit(text[3]);
    lemma_value_of_digit(text[5]);
    lemma_value_of_digit(text[6]);
    lemma_value_of_digit(text[8]);
    lemma_value_of_digit(text[9]);
    lemma_digits_of_four(
        digit_value(text[0]),
        digit_value(text[1]),
        digit_value(text[2]),
        digit_value(text[3]),
    );
    lemma_digits_of_four(0, 0, digit_value(text[5]), digit_value(text[6]));
    lemma_digits_of_four(0, 0, digit_value(text[8]), digit_value(text[9]));
    assert(date.year as int == year_of(text));
    assert(date.month as int == month_of(text));
    assert(date.day as int == day_of(text));
    assert(date_text(date) =~= text);
}

/// The number of the digit `c`, or `None` where `c` is no digit.
fn digit_of(c: char) -> (value: Option<u8>)
    ensures
        value is Some <==> is_digit(c),
        value matches Some(v) ==> v == digit_value(c) && v < 10,
{
    if c >= '0' && c <= '9' {
        Some((c as u32 - '0' as u32) as u8)
    } else {
        None
    }
}

/// Checks that `date` is written as `YYYY-MM-DD` and names a day that exists.
///
/// The shape is checked first: a text of another shape gives
/// `InvalidDateFormat` whatever numbers it holds.
pub fn validate_date(date: &str) -> (res: Result<CalendarDate, PotdError>)
    ensures
        res == validate_date_spec(date@),
        res matches Ok(d) ==> d.wf(),
{
    if date.unicode_len() != 10 {
        return Err(PotdError::InvalidDateFormat);
    }
    let mut digits: [u8; 10] = [0, 0, 0, 0, 0, 0, 0, 0, 0, 0];
    let mut i: usize = 0;
    while i < 10
        invariant
            date@.len() == 10,
            i <= 10,
            forall|k: int| 0 <= k < i ==> fits_date_shape(k, #[trigger] date@[k]),
            forall|k: int|
                0 <= k < i && k != 4 && k != 7 ==> #[trigger] digits@[k] == digit_value(date@[k])
                    && digits@[k] < 10,
        decreases 10 - i,
    {
        let c = date.get_char(i);
        if i == 4 || i == 7 {
            if c != '-' {
                assert(!fits_date_shape(i as int, date@[i as int]));
                return Err(PotdError::InvalidDateFormat);
            }
        } else {
            match digit_of(c) {
                Some(v) => {
                    digits[i] = v;
                },
                None => {
                    assert(!fits_date_shape(i as int, date@[i as int]));
                    return Err(PotdError::InvalidDateFormat);
                },
            }
        }
        i += 1;
    }
    let year: i32 = 1000 * (digits[0] as i32) + 100 * (digits[1] as i32) + 10 * (digits[2] as i32)
        + (digits[3] as i32);
    let month: u8 = 10 * digits[5] + digits[6];
    let day: u8 = 10 * digits[8] + digits[9];
    match CalendarDate::new(year, month, day) {
        Some(found) => Ok(found),
        None => Err(PotdError::InvalidDateValue),
    }
}

impl CalendarDate {
    /// Writes the date as `YYYY-MM-DD`.
    pub fn to_string(&self) -> (text: String)
        requires
            self.wf(),
        ensures
            text@ == date_text(*self),
    {
        let year: u32 = self.year as u32;
        let mut text = String::new();
        push_char(&mut text, digit_for(year / 1000));
        push_char(&mut text, digit_for(year / 100 % 10));
        push_char(&mut text, digit_for(year / 10 % 10));
        push_char(&mut text, digit_for(year % 10));
        push_char(&mut text, '-');
        push_char(&mut text, digit_for(self.month as u32 / 10));
        push_char(&mut text, digit_for(self.month as u32 % 10));
        push_char(&mut text, '-');
        push_char(&mut text, digit_for(self.day as u32 / 10));
        push_char(&mut text, digit_for(self.day as u32 % 10));
        assert(text@ =~= date_text(*self));
        text
    }
}

/// The digit for a number below 10.
fn digit_for(value: u32) -> (c: char)
    requires
        value < 10,
    ensures
        c == digit_char(value as int),
{
    (value as u8 + 48) as char
}

} // verus!
