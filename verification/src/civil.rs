//! Civil (naive) dates, times and datetimes: calendar values with no
//! timezone attached.

use vstd::prelude::*;

verus! {

/// A calendar date in the proleptic Gregorian calendar, no timezone attached.
#[derive(Clone, Copy, PartialEq, Eq, Structural, Debug)]
pub struct CivilDate {
    pub year: u16,
    pub month: u8,
    pub day: u8,
}

/// A wall-clock time of day.
#[derive(Clone, Copy, PartialEq, Eq, Structural, Debug)]
pub struct CivilTime {
    pub hour: u8,
    pub minute: u8,
    pub second: u8,
}

/// A calendar date combined with a wall-clock time; the canonical "naive"
/// value the engine produces from free-form input.
#[derive(Clone, Copy, PartialEq, Eq, Structural, Debug)]
pub struct CivilDateTime {
    pub date: CivilDate,
    pub time: CivilTime,
}

pub open spec fn is_leap_year(y: int) -> bool {
    (y % 4 == 0 && y % 100 != 0) || y % 400 == 0
}

pub open spec fn days_in_month(y: int, m: int) -> int {
    if m == 2 {
        if is_leap_year(y) {
            29
        } else {
            28
        }
    } else if m == 4 || m == 6 || m == 9 || m == 11 {
        30
    } else {
        31
    }
}

impl CivilDate {
    /// A real calendar date whose year has at most four digits.
    pub open spec fn wf(self) -> bool {
        &&& self.year <= 9999
        &&& 1 <= self.month <= 12
        &&& 1 <= self.day <= days_in_month(self.year as int, self.month as int)
    }
}

impl CivilTime {
    pub open spec fn wf(self) -> bool {
        self.hour <= 23 && self.minute <= 59 && self.second <= 59
    }

    pub open spec fn midnight() -> CivilTime {
        CivilTime { hour: 0, minute: 0, second: 0 }
    }
}

impl CivilDateTime {
    pub open spec fn wf(self) -> bool {
        self.date.wf() && self.time.wf()
    }
}

/// Number of days of month `month` in year `year`.
pub fn month_length(year: u16, month: u8) -> (r: u8)
    requires
        1 <= month <= 12,
    ensures
        r == days_in_month(year as int, month as int),
{
    if month == 2 {
        if (year % 4 == 0 && year % 100 != 0) || year % 400 == 0 {
            29
        } else {
            28
        }
    } else if month == 4 || month == 6 || month == 9 || month == 11 {
        30
    } else {
        31
    }
}

/// Is this a well-formed civil datetime?
pub fn civil_wf(c: &CivilDateTime) -> (r: bool)
    ensures
        r == c.wf(),
{
    valid_date(c.date.year, c.date.month, c.date.day) && c.time.hour <= 23 && c.time.minute <= 59
        && c.time.second <= 59
}

/// Does `(year, month, day)` name a real calendar date with a year of at
/// most four digits?
pub fn valid_date(year: u16, month: u8, day: u8) -> (r: bool)
    ensures
        r == (CivilDate { year, month, day }).wf(),
{
    year <= 9999 && 1 <= month && month <= 12 && 1 <= day && day <= month_length(year, month)
}

} // verus!
