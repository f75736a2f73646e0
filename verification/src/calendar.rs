//! Calendar dates: the day on which a timestamp falls, and how a date is
//! written.

use crate::text::{decimal_digits, digit_char, zero_padded};
use vstd::prelude::*;

verus! {

/// The first year that a date can have.
pub const MIN_YEAR: i32 = -262143;

/// The last year that a date can have.
pub const MAX_YEAR: i32 = 262142;

/// Whether `year` has a 29th of February, by the Gregorian rule.
pub open spec fn is_leap_year(year: int) -> bool {
    year % 4 == 0 && (year % 100 != 0 || year % 400 == 0)
}

/// The number of days of a month.
pub open spec fn days_in_month(year: int, month: int) -> int {
    if month == 2 {
        if is_leap_year(year) {
            29
        } else {
            28
        }
    } else if month == 4 || month == 6 || month == 9 || month == 11 {
        30
    } else {
        31
    }
}

/// Whether there is such a day in the calendar, within the years that a
/// date can have.
pub open spec fn valid_date(year: int, month: int, day: int) -> bool {
    MIN_YEAR <= year <= MAX_YEAR && 1 <= month <= 12 && 1 <= day <= days_in_month(year, month)
}

/// A number below 100, written with two digits.
pub open spec fn two_digits(n: int) -> Seq<char> {
    seq![digit_char(n / 10), digit_char(n % 10)]
}

/// A year as it is written in a date: four digits from 0 to 9999, else a
/// sign and at least four digits.
pub open spec fn year_text(year: int) -> Seq<char> {
    if 0 <= year <= 9999 {
        zero_padded(decimal_digits(year as nat), 4)
    } else if year > 9999 {
        seq!['+'] + decimal_digits(year as nat)
    } else {
        seq!['-'] + zero_padded(decimal_digits((-year) as nat), 4)
    }
}

/// A date as it is written: year, month and day, with `-` between them.
pub open spec fn date_text(year: int, month: int, day: int) -> Seq<char> {
    year_text(year) + seq!['-'] + two_digits(month) + seq!['-'] + two_digits(day)
}

/// The year, month and day on which the instant `secs` seconds after the
/// start of 1970 falls in UTC, where chrono has a date for it.
pub uninterp spec fn civil_date(secs: i64) -> Option<(i32, u32, u32)>;

/// Calls `chrono::DateTime::from_timestamp` with no nanoseconds and hands
/// out year, month and day of the date it gives. The result is that
/// function's, under the name `civil_date`; nothing more is claimed of it.
#[verifier::external_body]
fn civil_from_timestamp(secs: i64) -> (date: Option<(i32, u32, u32)>)
    ensures
        date == civil_date(secs),
{
    match chrono::DateTime::from_timestamp(secs, 0) {
        Some(instant) => {
            let d = instant.date_naive();
            Some((chrono::Datelike::year(&d), chrono::Datelike::month(&d), chrono::Datelike::day(&d)))
        },
        None => None,
    }
}

/// Calls `chrono::NaiveDate::from_ymd_opt` and writes the date with its
/// `Display`. The contract claims that chrono has every date that
/// `valid_date` admits, and that it writes the year with four digits (from 0
/// to 9999) or with a sign, then month and day with two digits each.
#[verifier::external_body]
fn iso_date(year: i32, month: u32, day: u32) -> (text: String)
    requires
        valid_date(year as int, month as int, day as int),
    ensures
        text@ == date_text(year as int, month as int, day as int),
{
    chrono::NaiveDate::from_ymd_opt(year, month, day).unwrap().to_string()
}

/// A day of the proleptic Gregorian calendar.
#[derive(Clone, Copy, Debug, PartialEq, Eq, Structural, Hash)]
pub struct Date {
    year: i32,
    month: u32,
    day: u32,
}

/// Year, month and day of a date, as numbers.
pub struct DateView {
    pub year: int,
    pub month: int,
    pub day: int,
}

/// The date on which a timestamp falls, where it has one.
pub open spec fn date_of_timestamp(secs: i64) -> Option<DateView> {
    match civil_date(secs) {
        Some((year, month, day)) => if valid_date(year as int, month as int, day as int) {
            Some(DateView { year: year as int, month: month as int, day: day as int })
        } else {
            None
        },
        None => None,
    }
}

impl View for Date {
    type V = DateView;

    closed spec fn view(&self) -> DateView {
        DateView { year: self.year as int, month: self.month as int, day: self.day as int }
    }
}

impl DeepView for Date {
    type V = DateView;

    open spec fn deep_view(&self) -> DateView {
        self@
    }
}

impl DateView {
    /// The date as it is written.
    pub open spec fn text(self) -> Seq<char> {
        date_text(self.year, self.month, self.day)
    }
}

impl Date {
    #[verifier::type_invariant]
    spec fn exists_in_calendar(self) -> bool {
        valid_date(self.year as int, self.month as int, self.day as int)
    }

    /// The date with the given year, month and day, if there is such a day.
    pub fn from_ymd(year: i32, month: u32, day: u32) -> (date: Option<Date>)
        ensures
            date is Some <==> valid_date(year as int, month as int, day as int),
            date matches Some(d) ==> d@ == (DateView {
                year: year as int,
                month: month as int,
                day: day as int,
            }),
    {
        if year < MIN_YEAR || year > MAX_YEAR || month < 1 || month > 12 || day < 1 {
            return None;
        }
        let shifted: u32 = (year + 262400) as u32;
        assert(is_leap_year(year as int) <==> (shifted % 4 == 0 && (shifted % 100 != 0 || shifted
            % 400 == 0)));
        let leap = shifted % 4 == 0 && (shifted % 100 != 0 || shifted % 400 == 0);
        let days: u32 = if month == 2 {
            if leap {
                29
            } else {
                28
            }
        } else if month == 4 || month == 6 || month == 9 || month == 11 {
            30
        } else {
            31
        };
        if day > days {
            return None;
        }
        Some(Date { year, month, day })
    }

    /// The date on which the instant `secs` seconds after the start of 1970
    /// falls in UTC, if the calendar reaches that far.
    pub fn from_timestamp(secs: i64) -> (date: Option<Date>)
        ensures
            date is Some <==> date_of_timestamp(secs) is Some,
            date matches Some(d) ==> date_of_timestamp(secs) == Some(d@),
    {
        match civil_from_timestamp(secs) {
            Some((year, month, day)) => Date::from_ymd(year, month, day),
            None => None,
        }
    }

    /// The year.
    pub fn year(&self) -> (year: i32)
        ensures
            year == self@.year,
    {
        self.year
    }

    /// The month, from 1 to 12.
    pub fn month(&self) -> (month: u32)
        ensures
            month == self@.month,
    {
        self.month
    }

    /// The day of the month, from 1.
    pub fn day(&self) -> (day: u32)
        ensures
            day == self@.day,
    {
        self.day
    }

    /// The date as it is written, such as `2015-09-05`.
    pub fn to_text(&self) -> (text: String)
        ensures
            text@ == self@.text(),
    {
        proof {
            use_type_invariant(self);
        }
        iso_date(self.year, self.month, self.day)
    }
}

} // verus!
