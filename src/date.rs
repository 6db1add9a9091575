//! Calendar dates as day numbers.
use chrono::Datelike;
use vstd::prelude::*;

verus! {

/// Earliest year that a date can hold.
pub const MIN_YEAR: i32 = -262143;

/// Latest year that a date can hold.
pub const MAX_YEAR: i32 = 262142;

/// Day number of the first day of `MIN_YEAR`.
pub const MIN_DAY: i32 = -95_746_129;

/// Day number of the last day of `MAX_YEAR`.
pub const MAX_DAY: i32 = 95_745_399;

/// A day of the proleptic Gregorian calendar, held as its number of days
/// from the common era: 0001-01-01 is day 1.
#[derive(Clone, Copy, Debug, PartialEq, Eq, Hash, PartialOrd, Ord, Structural)]
pub struct Date {
    pub days: i32,
}

pub open spec fn is_leap_year(y: int) -> bool {
    y % 4 == 0 && (y % 100 != 0 || y % 400 == 0)
}

pub open spec fn month_length(y: int, m: int) -> int {
    if m == 2 {
        if is_leap_year(y) { 29 } else { 28 }
    } else if m == 4 || m == 6 || m == 9 || m == 11 {
        30
    } else {
        31
    }
}

/// Days of year `y` that come before the first of month `m`.
pub open spec fn days_before_month(y: int, m: int) -> int
    decreases m,
{
    if m <= 1 {
        0
    } else {
        days_before_month(y, m - 1) + month_length(y, m - 1)
    }
}

/// Days from the common era up to the last day of year `y - 1`.
pub open spec fn days_before_year(y: int) -> int {
    let p = y - 1;
    365 * p + p / 4 - p / 100 + p / 400
}

pub open spec fn valid_ymd(y: int, m: int, d: int) -> bool {
    &&& MIN_YEAR <= y <= MAX_YEAR
    &&& 1 <= m <= 12
    &&& 1 <= d <= month_length(y, m)
}

/// Day number of a calendar date.
pub open spec fn day_number(y: int, m: int, d: int) -> int {
    days_before_year(y) + days_before_month(y, m) + d
}

/// Relies on chrono's `NaiveDate::from_ymd_opt`, which refuses a month or
/// day that does not exist and a year out of range, and on
/// `Datelike::num_days_from_ce`, which counts 0001-01-01 as day 1.
#[verifier::external_body]
fn ymd_day_number(y: i32, m: u32, d: u32) -> (r: Option<i32>)
    ensures
        r.is_some() == valid_ymd(y as int, m as int, d as int),
        r.is_some() ==> r.unwrap() as int == day_number(y as int, m as int, d as int),
{
    chrono::NaiveDate::from_ymd_opt(y, m, d).map(|date| date.num_days_from_ce())
}

impl Date {
    /// The date with the given day number, one of the days from the first
    /// of `MIN_YEAR` to the last of `MAX_YEAR`.
    pub fn from_days(days: i32) -> (r: Date)
        requires
            MIN_DAY <= days <= MAX_DAY,
        ensures
            r.days == days,
    {
        Date { days }
    }

    /// The date of a year, month and day, or `None` where no such day exists
    /// or the year is out of range.
    pub fn from_ymd_opt(year: i32, month: u32, day: u32) -> (r: Option<Date>)
        ensures
            r.is_some() == valid_ymd(year as int, month as int, day as int),
            r.is_some() ==> r.unwrap().days as int == day_number(
                year as int,
                month as int,
                day as int,
            ),
    {
        match ymd_day_number(year, month, day) {
            Some(days) => Some(Date { days }),
            None => None,
        }
    }

    /// Whole days from `earlier` to `self`, negative where `earlier` comes
    /// later.
    pub fn days_since(&self, earlier: &Date) -> (r: i64)
        ensures
            r == self.days - earlier.days,
    {
        self.days as i64 - earlier.days as i64
    }
}

} // verus!
