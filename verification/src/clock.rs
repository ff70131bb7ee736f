//! The local clock and the local time zone, reached through `chrono`.
//! What they return depends on the machine's clock and time zone, so the
//! contracts here state only what holds of every reading.

use vstd::prelude::*;
use crate::calendar::{valid_date, day_number, weekday_of_date, weekday_of_index, MIN_YEAR, MAX_YEAR};
use chrono::{Datelike, Local, NaiveDate, TimeDelta, TimeZone, Timelike};

verus! {

/// The largest distance from the Unix epoch, in seconds, of any instant the
/// time library can represent (about 262 144 years of 366 days).
pub const TIMESTAMP_BOUND: i64 = 9_000_000_000_000;

/// Seconds east of UTC below which every UTC offset of the time library
/// lies (offsets are strictly within one day).
pub const OFFSET_BOUND: i32 = 86400;

/// The seconds since the Unix epoch of the wall-clock reading `hour:minute:
/// second` on the day numbered `day` (its UTC instant when the offset is 0).
pub open spec fn wall_seconds(day: int, hour: int, minute: int, second: int) -> int {
    day * 86400 + hour * 3600 + minute * 60 + second
}

/// One reading of the local clock: the instant, the local date and time of
/// day it shows, its day of the week, and the offset of local time from UTC.
#[derive(Clone, Copy, Debug)]
pub struct LocalNow {
    /// Seconds since the Unix epoch (UTC), rounded down.
    pub utc_seconds: i64,
    pub year: i32,
    pub month: u32,
    pub day: u32,
    pub hour: u32,
    pub minute: u32,
    pub second: u32,
    /// Days since Monday of the local date (0 for Monday).
    pub weekday_from_monday: u32,
    /// Seconds by which local time is ahead of UTC.
    pub offset_seconds: i32,
}

impl LocalNow {
    /// The day number of the local date.
    pub open spec fn local_day(self) -> int {
        day_number(self.year as int, self.month as int, self.day as int)
    }

    /// What every reading of the clock satisfies: a calendar date of the
    /// library's range with its weekday, a time of day, an offset within a
    /// day, and the instant equal to the local wall time less the offset.
    pub open spec fn wf(self) -> bool {
        &&& valid_date(self.year as int, self.month as int, self.day as int)
        &&& MIN_YEAR <= self.year <= MAX_YEAR + 1
        &&& self.hour < 24 && self.minute < 60 && self.second < 60
        &&& -OFFSET_BOUND < self.offset_seconds < OFFSET_BOUND
        &&& 0 <= self.utc_seconds <= TIMESTAMP_BOUND
        &&& self.utc_seconds == wall_seconds(
            self.local_day(),
            self.hour as int,
            self.minute as int,
            self.second as int,
        ) - self.offset_seconds
        &&& self.weekday_from_monday < 7
        &&& weekday_of_index(self.weekday_from_monday as int) == weekday_of_date(
            self.year as int,
            self.month as int,
            self.day as int,
        )
    }
}

/// Reads the clock with `chrono::Local::now`. The reading is whatever the
/// system clock and time zone say; the contract claims what chrono's types
/// guarantee of every reading: the local date is a calendar date of chrono's
/// range (one day of headroom for the offset) with its weekday, the time of
/// day has no leap second (`Utc::now` takes nanoseconds below one second),
/// the offset (`FixedOffset`) is strictly within one day, the local time is
/// the UTC instant plus that offset, and the instant is not before the Unix
/// epoch (`Utc::now` panics otherwise).
#[verifier::external_body]
pub(crate) fn read_local_clock() -> (now: LocalNow)
    ensures
        now.wf(),
{
    let t = Local::now();
    let local = t.naive_local();
    LocalNow {
        utc_seconds: t.timestamp(),
        year: local.year(),
        month: local.month(),
        day: local.day(),
        hour: local.hour(),
        minute: local.minute(),
        second: local.second(),
        weekday_from_monday: local.weekday().num_days_from_monday(),
        offset_seconds: t.offset().local_minus_utc(),
    }
}

/// The date `days` days after `(year, month, day)`, by
/// `chrono::NaiveDate::checked_add_signed`. The contract claims what chrono
/// documents: the result is the calendar date whose day number is `days`
/// more, and it is missing only when the start is not a date of chrono's
/// range or the result leaves that range.
#[verifier::external_body]
pub(crate) fn date_add_days(year: i32, month: u32, day: u32, days: i64) -> (r: Option<(i32, u32, u32)>)
    requires
        -1_000_000 <= days <= 1_000_000,
    ensures
        r matches Some((y, m, d)) ==> {
            &&& valid_date(y as int, m as int, d as int)
            &&& MIN_YEAR <= y <= MAX_YEAR
            &&& day_number(y as int, m as int, d as int) == day_number(
                year as int,
                month as int,
                day as int,
            ) + days
        },
        (valid_date(year as int, month as int, day as int) && MIN_YEAR <= year && year < MAX_YEAR
            && 0 <= days <= 7) ==> r is Some,
{
    match NaiveDate::from_ymd_opt(year, month, day) {
        Some(date) => match date.checked_add_signed(TimeDelta::days(days)) {
            Some(n) => Some((n.year(), n.month(), n.day())),
            None => None,
        },
        None => None,
    }
}

/// The instant at which the local wall clock shows the given date and time,
/// by `chrono::Local.with_ymd_and_hms(..).single()`, in seconds since the
/// Unix epoch, with the offset the time zone has there. Which offset that is
/// depends on the machine's time zone (and there is no single instant around
/// daylight-saving changes), so the contract claims only what chrono's code
/// guarantees: there is none for a date that does not exist or a time of
/// day out of range; otherwise the instant is the wall time less the offset
/// (`from_local_datetime`), the offset lies strictly within one day
/// (`FixedOffset`), and the instant lies in chrono's range.
#[verifier::external_body]
pub(crate) fn local_to_utc_seconds(
    year: i32,
    month: u32,
    day: u32,
    hour: u32,
    minute: u32,
    second: u32,
) -> (r: Option<(i64, i32)>)
    ensures
        !(valid_date(year as int, month as int, day as int) && MIN_YEAR <= year <= MAX_YEAR && hour
            < 24 && minute < 60 && second < 60) ==> r is None,
        r matches Some((t, off)) ==> {
            &&& -TIMESTAMP_BOUND <= t <= TIMESTAMP_BOUND
            &&& -OFFSET_BOUND < off < OFFSET_BOUND
            &&& t == wall_seconds(
                day_number(year as int, month as int, day as int),
                hour as int,
                minute as int,
                second as int,
            ) - off
        },
{
    match Local.with_ymd_and_hms(year, month, day, hour, minute, second).single() {
        Some(t) => Some((t.timestamp(), t.offset().local_minus_utc())),
        None => None,
    }
}

} // verus!
