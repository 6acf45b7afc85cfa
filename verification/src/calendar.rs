//! Days of the proleptic Gregorian calendar, years 0 to 9999.
//!
//! The arithmetic of the calendar is left to the `time` crate. Each call into it
//! is a small function whose contract is taken on trust; what this module states
//! about those calls is written over the definitions below, and everything else
//! here is proved from them.

use vstd::prelude::*;

verus! {

/// The last year that a four-digit date can name.
pub const MAX_YEAR: i32 = 9999;

/// Leap years come every fourth year, except centuries not divisible by 400.
pub open spec fn is_leap_year(year: int) -> bool {
    year % 4 == 0 && (year % 100 != 0 || year % 400 == 0)
}

/// Length of a month in days; 0 where `month` is not 1 to 12.
pub open spec fn days_in_month(year: int, month: int) -> int {
    if month == 2 {
        if is_leap_year(year) {
            29
        } else {
            28
        }
    } else if month == 4 || month == 6 || month == 9 || month == 11 {
        30
    } else if 1 <= month <= 12 {
        31
    } else {
        0
    }
}

/// Whether the three numbers name a day of the calendar in the years 0 to 9999.
pub open spec fn is_calendar_date(year: int, month: int, day: int) -> bool {
    &&& 0 <= year <= MAX_YEAR
    &&& 1 <= month <= 12
    &&& 1 <= day <= days_in_month(year, month)
}

/// How many of the years `0, 1, .., year - 1` are leap years.
pub open spec fn leap_years_before(year: int) -> int {
    (year + 3) / 4 - (year + 99) / 100 + (year + 399) / 400
}

/// Days in the years `0, 1, .., year - 1`.
pub open spec fn days_before_year(year: int) -> int {
    365 * year + leap_years_before(year)
}

/// Days in the months of `year` that come before `month`.
pub open spec fn days_before_month(year: int, month: int) -> int {
    let common: int = if month <= 1 {
        0
    } else if month == 2 {
        31
    } else if month == 3 {
        59
    } else if month == 4 {
        90
    } else if month == 5 {
        120
    } else if month == 6 {
        151
    } else if month == 7 {
        181
    } else if month == 8 {
        212
    } else if month == 9 {
        243
    } else if month == 10 {
        273
    } else if month == 11 {
        304
    } else {
        334
    };
    if month > 2 && is_leap_year(year) {
        common + 1
    } else {
        common
    }
}

/// The Julian day number of a date. Days are numbered one after the other;
/// 1 January of the year 0 has the number 1 721 060, and 1 January 2000 the
/// number 2 451 545.
pub open spec fn julian_day(year: int, month: int, day: int) -> int {
    days_before_year(year) + days_before_month(year, month) + day + 1_721_059
}

/// A day of the calendar, as year, month and day of the month.
#[derive(Clone, Copy, Debug, PartialEq, Eq, Structural)]
pub struct CalendarDate {
    pub year: i32,
    pub month: u8,
    pub day: u8,
}

impl CalendarDate {
    /// The value names a day that exists.
    pub open spec fn wf(self) -> bool {
        is_calendar_date(self.year as int, self.month as int, self.day as int)
    }

    /// The Julian day number of this date.
    pub open spec fn day_number(self) -> int {
        julian_day(self.year as int, self.month as int, self.day as int)
    }

    /// Days since the last Monday: 0 on a Monday, 6 on a Sunday.
    pub open spec fn weekday(self) -> int {
        self.day_number() % 7
    }

    /// The last day that this module can name, 31 December 9999.
    pub open spec fn is_last(self) -> bool {
        self.year == MAX_YEAR && self.month == 12 && self.day == 31
    }

    /// The day after this one.
    pub open spec fn succ(self) -> CalendarDate {
        if (self.day as int) < days_in_month(self.year as int, self.month as int) {
            CalendarDate { year: self.year, month: self.month, day: (self.day + 1) as u8 }
        } else if self.month < 12 {
            CalendarDate { year: self.year, month: (self.month + 1) as u8, day: 1 }
        } else {
            CalendarDate { year: (self.year + 1) as i32, month: 1, day: 1 }
        }
    }

    /// The day that comes `days` days after this one.
    pub open spec fn plus_days(self, days: nat) -> CalendarDate
        decreases days,
    {
        if days == 0 {
            self
        } else {
            self.succ().plus_days((days - 1) as nat)
        }
    }

    /// Whether this day comes before `other`.
    pub open spec fn is_before(self, other: CalendarDate) -> bool {
        self.year < other.year || (self.year == other.year && (self.month < other.month || (
        self.month == other.month && self.day < other.day)))
    }

    /// The date with these numbers, if the calendar has it.
    pub fn new(year: i32, month: u8, day: u8) -> (date: Option<CalendarDate>)
        ensures
            date == (if is_calendar_date(year as int, month as int, day as int) {
                Some(CalendarDate { year, month, day })
            } else {
                None
            }),
    {
        if 0 <= year && year <= MAX_YEAR && day_exists(year, month, day) {
            Some(CalendarDate { year, month, day })
        } else {
            None
        }
    }

    /// Days since the last Monday, 0 to 6.
    pub fn weekday_from_monday(&self) -> (index: u8)
        requires
            self.wf(),
        ensures
            index as int == self.weekday(),
            index < 7,
    {
        weekday_index(self)
    }

    /// The day after this one.
    pub fn next_day(&self) -> (next: CalendarDate)
        requires
            self.wf(),
            !self.is_last(),
        ensures
            next == self.succ(),
            next.wf(),
            next.day_number() == self.day_number() + 1,
    {
        proof {
            lemma_succ_day_number(*self);
        }
        following_day(self)
    }

    /// How many days `later` lies after this day; negative where it lies before.
    pub fn days_until(&self, later: &CalendarDate) -> (days: i64)
        requires
            self.wf(),
            later.wf(),
        ensures
            days == later.day_number() - self.day_number(),
    {
        days_from_to(self, later)
    }

    /// Whether this day comes before `other`.
    pub fn precedes(&self, other: &CalendarDate) -> (before: bool)
        ensures
            before == self.is_before(*other),
            self.wf() && other.wf() ==> before == (self.day_number() < other.day_number()),
    {
        proof {
            if self.wf() && other.wf() {
                lemma_order_is_day_order(*self, *other);
            }
        }
        self.year < other.year || (self.year == other.year && (self.month < other.month || (
        self.month == other.month && self.day < other.day)))
    }
}

/// `time::Date::from_calendar_date`, with the month from `time::Month::try_from`:
/// for a year from 0 to 9999 it accepts exactly the months 1 to 12 and the days
/// that the month has in that year.
#[verifier::external_body]
fn day_exists(year: i32, month: u8, day: u8) -> (exists: bool)
    requires
        0 <= year <= MAX_YEAR,
    ensures
        exists == is_calendar_date(year as int, month as int, day as int),
{
    match time::Month::try_from(month) {
        Ok(m) => time::Date::from_calendar_date(year, m, day).is_ok(),
        Err(_) => false,
    }
}

/// `time::Date::weekday` and `time::Weekday::number_days_from_monday`: the
/// weekday is the Julian day number modulo 7, which is 0 on Mondays.
#[verifier::external_body]
fn weekday_index(date: &CalendarDate) -> (index: u8)
    requires
        date.wf(),
    ensures
        index as int == date.weekday(),
{
    let month = time::Month::try_from(date.month).unwrap();
    let day = time::Date::from_calendar_date(date.year, month, date.day).unwrap();
    day.weekday().number_days_from_monday()
}

/// `time::Date::next_day`: the next day of the calendar, which exists for every
/// day but the last one that `time` can name.
#[verifier::external_body]
fn following_day(date: &CalendarDate) -> (next: CalendarDate)
    requires
        date.wf(),
        !date.is_last(),
    ensures
        next == date.succ(),
{
    let month = time::Month::try_from(date.month).unwrap();
    let day = time::Date::from_calendar_date(date.year, month, date.day).unwrap();
    let next = day.next_day().unwrap();
    CalendarDate { year: next.year(), month: u8::from(next.month()), day: next.day() }
}

/// Subtraction of one `time::Date` from another, and
/// `time::Duration::whole_days` of the difference: the number of days from
/// `begin` to `end`, which is the difference of their Julian day numbers.
#[verifier::external_body]
fn days_from_to(begin: &CalendarDate, end: &CalendarDate) -> (days: i64)
    requires
        begin.wf(),
        end.wf(),
    ensures
        days == end.day_number() - begin.day_number(),
{
    let first_month = time::Month::try_from(begin.month).unwrap();
    let first = time::Date::from_calendar_date(begin.year, first_month, begin.day).unwrap();
    let last_month = time::Month::try_from(end.month).unwrap();
    let last = time::Date::from_calendar_date(end.year, last_month, end.day).unwrap();
    (last - first).whole_days()
}

/// Going to the next day adds one to the Julian day number.
pub proof fn lemma_succ_day_number(date: CalendarDate)
    requires
        date.wf(),
        !date.is_last(),
    ensures
        date.succ().wf(),
        date.succ().day_number() == date.day_number() + 1,
{
}

/// A year adds 365 days to the count, and one more where it is a leap year.
proof fn lemma_year_length(year: int)
    requires
        0 <= year,
    ensures
        days_before_year(year + 1) == days_before_year(year) + (if is_leap_year(year) {
            366int
        } else {
            365int
        }),
{
}

/// Later years start later, by at least 365 days for each year between.
proof fn lemma_years_apart(first: int, second: int)
    requires
        0 <= first <= second,
    ensures
        days_before_year(second) >= days_before_year(first) + 365 * (second - first),
    decreases second - first,
{
    if first < second {
        lemma_years_apart(first, second - 1);
        lemma_year_length(second - 1);
    }
}

/// The day of the year lies between 1 and the length of the year.
proof fn lemma_day_of_year_bounds(year: int, month: int, day: int)
    requires
        is_calendar_date(year, month, day),
    ensures
        1 <= days_before_month(year, month) + day <= (if is_leap_year(year) {
            366int
        } else {
            365int
        }),
{
}

/// The order of dates by year, month and day is the order of their Julian day
/// numbers.
pub proof fn lemma_order_is_day_order(a: CalendarDate, b: CalendarDate)
    requires
        a.wf(),
        b.wf(),
    ensures
        a.is_before(b) <==> a.day_number() < b.day_number(),
        a == b <==> a.day_number() == b.day_number(),
{
    lemma_before_is_earlier(a, b);
    lemma_before_is_earlier(b, a);
}

/// A date that comes before another has the smaller Julian day number.
proof fn lemma_before_is_earlier(a: CalendarDate, b: CalendarDate)
    requires
        a.wf(),
        b.wf(),
    ensures
        a.is_before(b) ==> a.day_number() < b.day_number(),
{
    if a.year < b.year {
        lemma_day_of_year_bounds(a.year as int, a.month as int, a.day as int);
        lemma_day_of_year_bounds(b.year as int, b.month as int, b.day as int);
        lemma_year_length(a.year as int);
        lemma_years_apart(a.year + 1, b.year as int);
    } else if a.year == b.year && a.month < b.month {
        lemma_months_apart(a.year as int, a.month as int, b.month as int);
    }
}

/// A later month of the same year starts after the earlier month has ended.
proof fn lemma_months_apart(year: int, first: int, second: int)
    requires
        1 <= first < second <= 12,
    ensures
        days_before_month(year, second) >= days_before_month(year, first) + days_in_month(
            year,
            first,
        ),
{
}

} // verus!
