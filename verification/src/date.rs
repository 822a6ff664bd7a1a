//! Calendar dates as plain values, with verified validity rules.
//!
//! The date shown by the date-picker widget is held here as year, month and
//! day numbers with the proleptic Gregorian validity rules proved over them.
//! Only asking for the current day needs the outside world; that one call
//! stands behind a trusted wrapper.
use vstd::prelude::*;

use chrono::Datelike;

verus! {

/// Whether a year is a leap year in the proleptic Gregorian calendar.
pub open spec fn spec_is_leap_year(y: int) -> bool {
    y % 4 == 0 && (y % 100 != 0 || y % 400 == 0)
}

/// How many days the given month of the given year has; zero for a month
/// number outside 1..=12.
pub open spec fn spec_days_in_month(y: int, m: int) -> int {
    if m == 1 || m == 3 || m == 5 || m == 7 || m == 8 || m == 10 || m == 12 {
        31
    } else if m == 4 || m == 6 || m == 9 || m == 11 {
        30
    } else if m == 2 {
        if spec_is_leap_year(y) {
            29
        } else {
            28
        }
    } else {
        0
    }
}

/// A calendar date.  The fields are private: the only constructors validate,
/// so every reachable value satisfies `valid`.
#[derive(Clone, Copy, PartialEq, Eq, Structural, Debug)]
pub struct Date {
    year: i32,
    month: u8,
    day: u8,
}

impl Date {
    /// The year, any `i32`.
    pub closed spec fn spec_year(self) -> int {
        self.year as int
    }

    /// The month, 1 to 12 on a valid date.
    pub closed spec fn spec_month(self) -> int {
        self.month as int
    }

    /// The day of month, 1 to the month's length on a valid date.
    pub closed spec fn spec_day(self) -> int {
        self.day as int
    }

    /// Well-formedness: the month exists and the day fits the month.
    pub open spec fn valid(self) -> bool {
        1 <= self.spec_month() <= 12 && 1 <= self.spec_day() <= spec_days_in_month(
            self.spec_year(),
            self.spec_month(),
        )
    }

    pub fn year(&self) -> (y: i32)
        ensures
            y == self.spec_year(),
    {
        self.year
    }

    pub fn month(&self) -> (m: u8)
        ensures
            m == self.spec_month(),
    {
        self.month
    }

    pub fn day(&self) -> (d: u8)
        ensures
            d == self.spec_day(),
    {
        self.day
    }

    /// Builds a date from its numbers; yields a date exactly when the numbers
    /// name a day of the proleptic Gregorian calendar.
    pub fn from_ymd(year: i32, month: u8, day: u8) -> (r: Option<Date>)
        ensures
            match r {
                Some(d) => d.spec_year() == year as int && d.spec_month() == month as int
                    && d.spec_day() == day as int && d.valid(),
                None => !(1 <= month as int <= 12 && 1 <= day as int <= spec_days_in_month(
                    year as int,
                    month as int,
                )),
            },
    {
        if 1 <= month && month <= 12 && 1 <= day && day <= days_in_month(year, month) {
            Some(Date { year, month, day })
        } else {
            None
        }
    }
}

/// Whether a year is a leap year.
pub fn is_leap_year(y: i32) -> (r: bool)
    ensures
        r == spec_is_leap_year(y as int),
{
    let r = y % 4 == 0 && (y % 100 != 0 || y % 400 == 0);
    proof {
        assert((y % 4 == 0) == (y as int % 4 == 0)) by (nonlinear_arith);
        assert((y % 100 == 0) == (y as int % 100 == 0)) by (nonlinear_arith);
        assert((y % 400 == 0) == (y as int % 400 == 0)) by (nonlinear_arith);
    }
    r
}

/// How many days the given month has, zero for a month number out of range.
pub fn days_in_month(y: i32, m: u8) -> (r: u8)
    ensures
        r == spec_days_in_month(y as int, m as int),
{
    if m == 1 || m == 3 || m == 5 || m == 7 || m == 8 || m == 10 || m == 12 {
        31
    } else if m == 4 || m == 6 || m == 9 || m == 11 {
        30
    } else if m == 2 {
        if is_leap_year(y) {
            29
        } else {
            28
        }
    } else {
        0
    }
}

/// Relies on `chrono::Utc::now` and `chrono::Datelike`: `date_naive` yields
/// the current calendar date, whose month ranges over 1..=12 and whose day of
/// month over 1..=31.  Which day comes back depends on the clock, so nothing
/// more is stated.
#[verifier::external_body]
fn today_ymd() -> (r: (i32, u8, u8))
    ensures
        1 <= r.1 <= 12,
        1 <= r.2 <= 31,
{
    let d = chrono::Utc::now().date_naive();
    (d.year(), d.month() as u8, d.day() as u8)
}

/// The current day by the host's clock, validated; `None` only if the clock
/// library handed back numbers that name no calendar day.
pub fn current_date() -> (r: Option<Date>)
    ensures
        r is Some ==> r.unwrap().valid(),
{
    let (y, m, d) = today_ymd();
    Date::from_ymd(y, m, d)
}

} // verus!
