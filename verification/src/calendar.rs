//! The proleptic Gregorian calendar as plain numbers: valid dates, the day
//! number of a date counted from 1970-01-01, and days of the week.

use vstd::prelude::*;

verus! {

/// The smallest year a calendar date of the time library can have.
pub const MIN_YEAR: i32 = -262143;

/// The largest year a calendar date of the time library can have.
pub const MAX_YEAR: i32 = 262142;

/// Seconds in a day of 24 hours.
pub const SECONDS_PER_DAY: i64 = 86400;

/// A day of the week, Monday first.
#[derive(Clone, Copy, Debug, PartialEq, Eq, Structural)]
pub enum Weekday {
    Mon,
    Tue,
    Wed,
    Thu,
    Fri,
    Sat,
    Sun,
}

impl Weekday {
    /// Days since Monday: 0 for Monday up to 6 for Sunday.
    pub open spec fn index(self) -> int {
        match self {
            Weekday::Mon => 0,
            Weekday::Tue => 1,
            Weekday::Wed => 2,
            Weekday::Thu => 3,
            Weekday::Fri => 4,
            Weekday::Sat => 5,
            Weekday::Sun => 6,
        }
    }

    /// Days since Monday: 0 for Monday up to 6 for Sunday.
    pub fn num_days_from_monday(self) -> (n: u32)
        ensures
            n == self.index(),
    {
        match self {
            Weekday::Mon => 0,
            Weekday::Tue => 1,
            Weekday::Wed => 2,
            Weekday::Thu => 3,
            Weekday::Fri => 4,
            Weekday::Sat => 5,
            Weekday::Sun => 6,
        }
    }
}

/// The weekday whose index is `i` (taken modulo 7).
pub open spec fn weekday_of_index(i: int) -> Weekday {
    let k = i % 7;
    if k == 0 {
        Weekday::Mon
    } else if k == 1 {
        Weekday::Tue
    } else if k == 2 {
        Weekday::Wed
    } else if k == 3 {
        Weekday::Thu
    } else if k == 4 {
        Weekday::Fri
    } else if k == 5 {
        Weekday::Sat
    } else {
        Weekday::Sun
    }
}

/// `y` is a leap year of the Gregorian calendar.
pub open spec fn is_leap_year(y: int) -> bool {
    (y % 4 == 0 && y % 100 != 0) || y % 400 == 0
}

/// The number of days of month `m` in year `y`.
pub open spec fn days_in_month(y: int, m: int) -> int {
    if m == 2 {
        if is_leap_year(y) {
            29
        } else {
            28
        }
    } else if m == 4 || m == 6 || m == 9 || m == 11 {
        30
    } else {
        31
    }
}

/// `(y, m, d)` names a day of the calendar.
pub open spec fn valid_date(y: int, m: int, d: int) -> bool {
    1 <= m <= 12 && 1 <= d <= days_in_month(y, m)
}

/// The number of days from 1970-01-01 to the date `(y, m, d)`, negative
/// before it (the civil-from-days count over 400-year eras).
pub open spec fn day_number(y: int, m: int, d: int) -> int {
    let y2 = if m <= 2 {
        y - 1
    } else {
        y
    };
    let era = y2 / 400;
    let yoe = y2 - era * 400;
    let mp = if m > 2 {
        m - 3
    } else {
        m + 9
    };
    let doy = (153 * mp + 2) / 5 + d - 1;
    let doe = yoe * 365 + yoe / 4 - yoe / 100 + doy;
    era * 146097 + doe - 719468
}

/// The day of the week of the date `(y, m, d)`; 1970-01-01 was a Thursday.
pub open spec fn weekday_of_date(y: int, m: int, d: int) -> Weekday {
    weekday_of_index(day_number(y, m, d) + 3)
}

/// The weekday index of a date `days` later moves on by `days` modulo 7.
pub proof fn lemma_weekday_shift(n: int, days: int)
    ensures
        weekday_of_index(n + days) == weekday_of_index((weekday_of_index(n).index() + days)),
{
    let k = n % 7;
    assert(weekday_of_index(n).index() == k);
    assert((n + days) % 7 == (k + days) % 7) by {
        vstd::arithmetic::div_mod::lemma_add_mod_noop(n, days, 7);
        vstd::arithmetic::div_mod::lemma_add_mod_noop(k, days, 7);
        vstd::arithmetic::div_mod::lemma_mod_twice(n, 7);
    }
}

} // verus!
