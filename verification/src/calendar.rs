//! A plain calendar date and the one operation the payment schedule needs:
//! stepping forward by exactly one calendar month, clamping the day of the
//! month to the length of the target month (so the 31st of January steps to
//! the 29th of February in a leap year, the 28th otherwise).

use vstd::prelude::*;

verus! {

/// Upper bound on the years a date may hold; generous enough for any schedule
/// the engine can produce, small enough that stepping a month never overflows.
pub const YEAR_CAP: u64 = 100_000_000_000_000;

/// A calendar date in the proleptic Gregorian calendar.
#[derive(Clone, Copy, PartialEq, Eq, Structural, Debug)]
pub struct Date {
    pub year: u64,
    pub month: u8,
    pub day: u8,
}

/// A year is a leap year when it is divisible by 4 but not by 100,
/// or divisible by 400.
pub open spec fn spec_is_leap_year(year: int) -> bool {
    (year % 4 == 0 && year % 100 != 0) || year % 400 == 0
}

/// Number of days in the given month of the given year.
pub open spec fn spec_days_in_month(year: int, month: int) -> int {
    if month == 2 {
        if spec_is_leap_year(year) {
            29
        } else {
            28
        }
    } else if month == 4 || month == 6 || month == 9 || month == 11 {
        30
    } else {
        31
    }
}

impl Date {
    /// A well-formed date: a real month, a day that exists in that month,
    /// and a year within the supported range.
    pub open spec fn wf(self) -> bool {
        &&& 1 <= self.month <= 12
        &&& 1 <= self.day <= spec_days_in_month(self.year as int, self.month as int)
        &&& 1 <= self.year <= YEAR_CAP
    }

    /// The date one calendar month later: the month advances (rolling the
    /// year over after December) and the day is clamped to the length of the
    /// target month.
    pub open spec fn spec_next_month(self) -> Date {
        let year2: u64 = if self.month == 12 {
            (self.year + 1) as u64
        } else {
            self.year
        };
        let month2: u8 = if self.month == 12 {
            1u8
        } else {
            (self.month + 1) as u8
        };
        let days: int = spec_days_in_month(year2 as int, month2 as int);
        let day2: u8 = if self.day as int <= days {
            self.day
        } else {
            days as u8
        };
        Date { year: year2, month: month2, day: day2 }
    }

    /// Step this date forward by exactly one calendar month.
    pub fn next_month(self) -> (r: Date)
        requires
            self.wf(),
            self.year < YEAR_CAP,
        ensures
            r == self.spec_next_month(),
            r.wf(),
            self.year <= r.year <= self.year + 1,
    {
        let year2: u64 = if self.month == 12 {
            self.year + 1
        } else {
            self.year
        };
        let month2: u8 = if self.month == 12 {
            1
        } else {
            self.month + 1
        };
        let days: u8 = days_in_month(year2, month2);
        let day2: u8 = if self.day <= days {
            self.day
        } else {
            days
        };
        Date { year: year2, month: month2, day: day2 }
    }
}

/// Stepping a well-formed date that is below the year cap yields a
/// well-formed date whose year grew by at most one.
pub proof fn lemma_next_month_wf(d: Date)
    requires
        d.wf(),
        d.year < YEAR_CAP,
    ensures
        d.spec_next_month().wf(),
        d.year <= d.spec_next_month().year <= d.year + 1,
{
}

/// Whether the given year is a leap year.
pub fn is_leap_year(year: u64) -> (r: bool)
    ensures
        r == spec_is_leap_year(year as int),
{
    (year % 4 == 0 && year % 100 != 0) || year % 400 == 0
}

/// Number of days in the given month of the given year.
pub fn days_in_month(year: u64, month: u8) -> (r: u8)
    requires
        1 <= month <= 12,
    ensures
        r == spec_days_in_month(year as int, month as int),
        28 <= r <= 31,
{
    if month == 2 {
        if is_leap_year(year) {
            29
        } else {
            28
        }
    } else if month == 4 || month == 6 || month == 9 || month == 11 {
        30
    } else {
        31
    }
}

} // verus!
