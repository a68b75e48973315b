//! Calendar dates and times of day, as plain year/month/day and
//! hour/minute values with strict validity invariants.

use vstd::prelude::*;

verus! {

/// A year is a leap year when it is divisible by 4, except century
/// years, which must be divisible by 400.
pub open spec fn is_leap_year(y: int) -> bool {
    y % 4 == 0 && (y % 100 != 0 || y % 400 == 0)
}

/// Number of days in month `m` of year `y` (months are 1-based).
pub open spec fn days_in_month(y: int, m: int) -> int {
    if m == 2 {
        if is_leap_year(y) {
            29
        } else {
            28
        }
    } else if m == 4 || m == 6 || m == 9 || m == 11 {
        30
    } else {
        31
    }
}

/// A proper calendar date: four-digit year, real month, and a day that
/// exists in that month (leap years included).
pub open spec fn valid_date(y: int, m: int, d: int) -> bool {
    0 <= y <= 9999 && 1 <= m <= 12 && 1 <= d <= days_in_month(y, m)
}

/// A proper 24-hour time of day.
pub open spec fn valid_time(h: int, min: int) -> bool {
    0 <= h < 24 && 0 <= min < 60
}

/// A calendar date, zone-less.
#[derive(Debug, Clone, Copy, PartialEq, Eq, Hash, PartialOrd, Ord, Structural)]
pub struct Date {
    pub year: u16,
    pub month: u8,
    pub day: u8,
}

impl View for Date {
    type V = Date;

    open spec fn view(&self) -> Date {
        *self
    }
}

impl DeepView for Date {
    type V = Date;

    open spec fn deep_view(&self) -> Date {
        *self
    }
}

impl Date {
    /// The date is a real calendar date.
    pub open spec fn wf(self) -> bool {
        valid_date(self.year as int, self.month as int, self.day as int)
    }

    /// Builds a date, rejecting anything that is not a real calendar date.
    pub fn new(year: u16, month: u8, day: u8) -> (r: Option<Date>)
        ensures
            r matches Some(d) ==> d == (Date { year, month, day }) && d.wf(),
            r is None <==> !valid_date(year as int, month as int, day as int),
    {
        if year <= 9999 && 1 <= month && month <= 12 && 1 <= day && day <= days_in_month_exec(
            year,
            month,
        ) {
            Some(Date { year, month, day })
        } else {
            None
        }
    }
}

/// Number of days in month `m` of year `y`.
pub fn days_in_month_exec(year: u16, month: u8) -> (r: u8)
    requires
        1 <= month <= 12,
    ensures
        r as int == days_in_month(year as int, month as int),
{
    if month == 2 {
        if year % 4 == 0 && (year % 100 != 0 || year % 400 == 0) {
            29
        } else {
            28
        }
    } else if month == 4 || month == 6 || month == 9 || month == 11 {
        30
    } else {
        31
    }
}

/// A time of day with minute precision, zone-less.
#[derive(Debug, Clone, Copy, PartialEq, Eq, Hash, PartialOrd, Ord, Structural)]
pub struct Time {
    pub hour: u8,
    pub minute: u8,
}

impl View for Time {
    type V = Time;

    open spec fn view(&self) -> Time {
        *self
    }
}

impl DeepView for Time {
    type V = Time;

    open spec fn deep_view(&self) -> Time {
        *self
    }
}

impl Time {
    /// The time is a real 24-hour time.
    pub open spec fn wf(self) -> bool {
        valid_time(self.hour as int, self.minute as int)
    }

    /// Builds a time, rejecting anything outside the 24-hour clock.
    pub fn new(hour: u8, minute: u8) -> (r: Option<Time>)
        ensures
            r matches Some(t) ==> t == (Time { hour, minute }) && t.wf(),
            r is None <==> !valid_time(hour as int, minute as int),
    {
        if hour < 24 && minute < 60 {
            Some(Time { hour, minute })
        } else {
            None
        }
    }
}

} // verus!
