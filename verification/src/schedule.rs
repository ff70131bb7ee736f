//! Backup schedule policies: parsing `daily "HH:mm"` and
//! `weekly "Ddd HH:mm"` policies, and working out when a policy runs next.

use vstd::prelude::*;
use crate::calendar::{
    Weekday, weekday_of_index, weekday_of_date, lemma_weekday_shift, MAX_YEAR, SECONDS_PER_DAY,
};
use crate::clock::{
    LocalNow, TIMESTAMP_BOUND, OFFSET_BOUND, wall_seconds, read_local_clock, date_add_days,
    local_to_utc_seconds,
};
use crate::calendar::day_number;
use crate::backup::{run_status, status_text};
use crate::types::{SaveScheduleInput, SchedulePolicy, Timestamp};
use crate::text::{
    blank, is_blank, NumberError, split_on, words, parse_u32_spec, chars_of, split_char, split_words, parse_u32,
    same_chars, decimal, is_ascii_digit, lemma_decimal_digits, lemma_split_on_pair,
    lemma_parse_decimal,
};

verus! {

/// Why a schedule was refused.
#[derive(Clone, Copy, Debug, PartialEq, Eq, Structural)]
pub enum ScheduleError {
    /// The backup root is empty or only white space.
    BackupRootRequired,
    /// A time is not two parts separated by one `:`.
    TimeFormat,
    /// An hour or a minute is not a decimal `u32`.
    Number(NumberError),
    /// A weekly policy is not two words.
    WeeklyFormat,
    /// A weekly policy names no weekday `Mon`..`Sun`.
    BadWeekday,
    /// A daily policy names no time that exists on the local clock today.
    InvalidDaily,
    /// A weekly policy names no time that exists on the local clock that day.
    InvalidWeekly,
    /// The policy type is neither `daily` nor `weekly`.
    UnsupportedPolicy,
}

/// A parsed schedule policy.
#[derive(Clone, Copy, Debug, PartialEq, Eq, Structural)]
pub enum Policy {
    /// Every day at `hour:minute` local time.
    Daily { hour: u32, minute: u32 },
    /// Every week on `weekday` at `hour:minute` local time.
    Weekly { weekday: Weekday, hour: u32, minute: u32 },
}

impl Policy {
    pub open spec fn hour_of(self) -> u32 {
        match self {
            Policy::Daily { hour, .. } => hour,
            Policy::Weekly { hour, .. } => hour,
        }
    }

    pub open spec fn minute_of(self) -> u32 {
        match self {
            Policy::Daily { minute, .. } => minute,
            Policy::Weekly { minute, .. } => minute,
        }
    }

    /// Days between two runs.
    pub open spec fn period_days(self) -> int {
        match self {
            Policy::Daily { .. } => 1,
            Policy::Weekly { .. } => 7,
        }
    }

    /// The error reported when the local clock has no such time.
    pub open spec fn unresolved(self) -> ScheduleError {
        match self {
            Policy::Daily { .. } => ScheduleError::InvalidDaily,
            Policy::Weekly { .. } => ScheduleError::InvalidWeekly,
        }
    }

    /// The time of day exists on a clock: hour below 24, minute below 60.
    pub open spec fn time_in_range(self) -> bool {
        self.hour_of() < 24 && self.minute_of() < 60
    }
}

/// What `parse_hhmm` returns for `s`: exactly one `:`, and a decimal `u32`
/// on each side of it, the hour's error reported first.
pub open spec fn hhmm_spec(s: Seq<char>) -> Result<(u32, u32), ScheduleError> {
    let parts = split_on(s, ':');
    if parts.len() != 2 {
        Err(ScheduleError::TimeFormat)
    } else {
        match parse_u32_spec(parts[0]) {
            Err(e) => Err(ScheduleError::Number(e)),
            Ok(h) => match parse_u32_spec(parts[1]) {
                Err(e) => Err(ScheduleError::Number(e)),
                Ok(m) => Ok((h, m)),
            },
        }
    }
}

/// The weekday written exactly as `s` (`Mon`, `Tue`, ..., `Sun`).
pub open spec fn weekday_named(s: Seq<char>) -> Option<Weekday> {
    if s == seq!['M', 'o', 'n'] {
        Some(Weekday::Mon)
    } else if s == seq!['T', 'u', 'e'] {
        Some(Weekday::Tue)
    } else if s == seq!['W', 'e', 'd'] {
        Some(Weekday::Wed)
    } else if s == seq!['T', 'h', 'u'] {
        Some(Weekday::Thu)
    } else if s == seq!['F', 'r', 'i'] {
        Some(Weekday::Fri)
    } else if s == seq!['S', 'a', 't'] {
        Some(Weekday::Sat)
    } else if s == seq!['S', 'u', 'n'] {
        Some(Weekday::Sun)
    } else {
        None
    }
}

/// The policy type `daily`.
pub open spec fn daily_name() -> Seq<char> {
    seq!['d', 'a', 'i', 'l', 'y']
}

/// The policy type `weekly`.
pub open spec fn weekly_name() -> Seq<char> {
    seq!['w', 'e', 'e', 'k', 'l', 'y']
}

/// What `parse_policy` returns for a policy type and value.
pub open spec fn policy_spec(policy_type: Seq<char>, value: Seq<char>) -> Result<
    Policy,
    ScheduleError,
> {
    if policy_type == daily_name() {
        match hhmm_spec(value) {
            Err(e) => Err(e),
            Ok((h, m)) => Ok(Policy::Daily { hour: h, minute: m }),
        }
    } else if policy_type == weekly_name() {
        let parts = words(value);
        if parts.len() != 2 {
            Err(ScheduleError::WeeklyFormat)
        } else {
            match weekday_named(parts[0]) {
                None => Err(ScheduleError::BadWeekday),
                Some(w) => match hhmm_spec(parts[1]) {
                    Err(e) => Err(e),
                    Ok((h, m)) => Ok(Policy::Weekly { weekday: w, hour: h, minute: m }),
                },
            }
        }
    } else {
        Err(ScheduleError::UnsupportedPolicy)
    }
}

/// Days from a day with weekday index `today` to the next day (today
/// included) that falls on the policy's weekday; 0 for a daily policy.
pub open spec fn day_offset_spec(policy: Policy, today: int) -> int {
    match policy {
        Policy::Daily { .. } => 0,
        Policy::Weekly { weekday, .. } => {
            let delta = weekday.index() - today;
            if delta < 0 {
                delta + 7
            } else {
                delta
            }
        },
    }
}

/// When a run scheduled at `candidate` (or at no instant) happens, seen at
/// `now`: a candidate not after `now` moves on by one period.
pub open spec fn settled_spec(candidate: Option<i64>, now: int, period_days: int, unresolved: ScheduleError) -> Result<int, ScheduleError> {
    match candidate {
        None => Err(unresolved),
        Some(c) => if c <= now {
            Ok(c + period_days * SECONDS_PER_DAY)
        } else {
            Ok(c as int)
        },
    }
}

/// A time written canonically, `H:M` with both numbers in decimal, parses
/// back to the same hour and minute.
pub proof fn lemma_hhmm_round_trip(hour: u32, minute: u32)
    ensures
        hhmm_spec(decimal(hour as nat) + seq![':'] + decimal(minute as nat)) == Ok::<
            (u32, u32),
            ScheduleError,
        >((hour, minute)),
{
    let a = decimal(hour as nat);
    let b = decimal(minute as nat);
    lemma_decimal_digits(hour as nat);
    lemma_decimal_digits(minute as nat);
    assert forall|i: int| 0 <= i < a.len() implies a[i] != ':' by {
        assert(is_ascii_digit(a[i]));
    }
    assert forall|i: int| 0 <= i < b.len() implies b[i] != ':' by {
        assert(is_ascii_digit(b[i]));
    }
    lemma_split_on_pair(a, b, ':');
    lemma_parse_decimal(hour);
    lemma_parse_decimal(minute);
}

/// A run time from a candidate instant `c` seen at `now`: a candidate not
/// after `now` moves on by one period of `period_days` days.
pub open spec fn settled_at(c: int, now: int, period_days: int) -> int {
    if c <= now {
        c + period_days * SECONDS_PER_DAY
    } else {
        c
    }
}

/// The local day on which the policy's first candidate falls, seen from the
/// clock reading `now`.
pub open spec fn candidate_day(policy: Policy, now: LocalNow) -> int {
    now.local_day() + day_offset_spec(policy, now.weekday_from_monday as int)
}

/// The wall-clock seconds of the policy's first candidate: its hour and
/// minute on its candidate day.
pub open spec fn candidate_wall(policy: Policy, now: LocalNow) -> int {
    wall_seconds(candidate_day(policy, now), policy.hour_of() as int, policy.minute_of() as int, 0)
}

/// The run time when the time zone gives the candidate the offset `off`.
pub open spec fn run_time_at_offset(policy: Policy, now: LocalNow, off: int) -> int {
    settled_at(candidate_wall(policy, now) - off, now.utc_seconds as int, policy.period_days())
}

/// What may come of working out the policy's next run from the clock
/// reading `now`: an error only the policy's own one (always for an hour of
/// 24 or more or a minute of 60 or more); a run time only the candidate's
/// wall time less the offset the time zone gives it (strictly within a
/// day), moved on by one period when that is not after `now`.
pub open spec fn next_run_outcome(policy: Policy, now: LocalNow, r: Result<i64, ScheduleError>) -> bool {
    &&& (r matches Err(e) ==> e == policy.unresolved())
    &&& (!policy.time_in_range() ==> r == Err::<i64, ScheduleError>(policy.unresolved()))
    &&& (r matches Ok(t) ==> exists|off: int|
        -OFFSET_BOUND < off < OFFSET_BOUND && t == #[trigger] run_time_at_offset(policy, now, off))
}

/// When the time zone gives the run the same offset as the clock reading
/// (no daylight-saving change in between), the run is the first instant
/// after `now` at which the local clock shows the policy's time, on the
/// policy's weekday for a weekly one: it is after `now`, at most one period
/// later, and shows `hour:minute:00` on a day of the right weekday. A
/// schedule whose next run is set to it is therefore no longer due at `now`.
pub proof fn lemma_next_run_window(policy: Policy, now: LocalNow, t: int)
    requires
        now.wf(),
        policy.time_in_range(),
        t == run_time_at_offset(policy, now, now.offset_seconds as int),
    ensures
        now.utc_seconds < t <= now.utc_seconds + policy.period_days() * SECONDS_PER_DAY,
        exists|day: int|
            {
                &&& t + now.offset_seconds == wall_seconds(
                    day,
                    policy.hour_of() as int,
                    policy.minute_of() as int,
                    0,
                )
                &&& (policy is Weekly ==> weekday_of_index(day + 3) == policy->weekday)
            },
        forall|nanos: u32|
            !(Timestamp { seconds: t as i64, nanos: 0 }).not_after(
                Timestamp { seconds: now.utc_seconds, nanos: nanos },
            ),
{
    let l = now.local_day();
    let delta = day_offset_spec(policy, now.weekday_from_monday as int);
    let p = policy.period_days();
    let c = candidate_day(policy, now);
    assert(0 <= delta < 7) by {
        if policy is Weekly {
            assert(0 <= policy->weekday.index() < 7);
        }
    }
    assert(policy is Daily ==> delta == 0);
    let day = if candidate_wall(policy, now) - now.offset_seconds <= now.utc_seconds {
        c + p
    } else {
        c
    };
    assert(t + now.offset_seconds == wall_seconds(day, policy.hour_of() as int, policy.minute_of() as int, 0));
    if policy is Weekly {
        let w = now.weekday_from_monday as int;
        assert(weekday_of_index(l + 3) == weekday_of_index(w));
        lemma_weekday_shift(l + 3, delta);
        lemma_weekday_shift(w, delta);
        assert(weekday_of_index(w).index() == w);
        assert((w + delta) % 7 == policy->weekday.index());
        assert(weekday_of_index(w + delta) == policy->weekday);
        assert(weekday_of_index(l + 3 + delta) == policy->weekday);
        lemma_weekday_shift(l + 3 + delta, 7);
        assert(policy->weekday.index() + 7 == policy->weekday.index() + 7);
        assert(weekday_of_index(policy->weekday.index() + 7) == policy->weekday);
        assert(weekday_of_index(day + 3) == policy->weekday);
    }
}

/// Whatever offset `off` the time zone gives the candidate, the run is an
/// instant at which the local clock, at that offset, shows exactly the
/// policy's `hour:minute:00`: on the candidate day, or one period later when
/// the candidate is not after the reading; for a weekly policy that day has
/// the policy's weekday. The run is never before the candidate instant and
/// never more than one period after it, and it is after the reading
/// whenever the candidate is.
pub proof fn lemma_run_shows_policy_time(policy: Policy, now: LocalNow, off: int)
    requires
        now.wf(),
        policy.time_in_range(),
    ensures
        ({
            let t = run_time_at_offset(policy, now, off);
            let c = candidate_wall(policy, now) - off;
            &&& t + off == wall_seconds(
                candidate_day(policy, now) + (if c <= now.utc_seconds { policy.period_days() } else { 0 }),
                policy.hour_of() as int,
                policy.minute_of() as int,
                0,
            )
            &&& (policy is Weekly ==> weekday_of_index(
                candidate_day(policy, now) + (if c <= now.utc_seconds { policy.period_days() } else { 0 }) + 3,
            ) == policy->weekday)
            &&& c <= t <= c + policy.period_days() * SECONDS_PER_DAY
            &&& t > now.utc_seconds || c <= now.utc_seconds - policy.period_days() * SECONDS_PER_DAY
        }),
{
    let l = now.local_day();
    let delta = day_offset_spec(policy, now.weekday_from_monday as int);
    if policy is Weekly {
        let w = now.weekday_from_monday as int;
        assert(weekday_of_index(l + 3) == weekday_of_index(w));
        lemma_weekday_shift(l + 3, delta);
        lemma_weekday_shift(w, delta);
        assert(weekday_of_index(w).index() == w);
        assert(weekday_of_index(w + delta) == policy->weekday);
        assert(weekday_of_index(l + 3 + delta) == policy->weekday);
        lemma_weekday_shift(l + 3 + delta, 7);
        assert(weekday_of_index(policy->weekday.index() + 7) == policy->weekday);
    }
}

/// The three-letter English abbreviation of each weekday.
pub open spec fn day_abbreviation(w: Weekday) -> Seq<char> {
    match w {
        Weekday::Mon => seq!['M', 'o', 'n'],
        Weekday::Tue => seq!['T', 'u', 'e'],
        Weekday::Wed => seq!['W', 'e', 'd'],
        Weekday::Thu => seq!['T', 'h', 'u'],
        Weekday::Fri => seq!['F', 'r', 'i'],
        Weekday::Sat => seq!['S', 'a', 't'],
        Weekday::Sun => seq!['S', 'u', 'n'],
    }
}

/// A weekday name names the weekday it abbreviates, and only that one:
/// every weekday is parsed from its abbreviation, a name parses only as the
/// weekday it abbreviates, and the names fall on the calendar's days of the
/// week, `Mon` on 2024-01-01 (a Monday) through `Sun` on 2024-01-07, with
/// `Thu` on 1970-01-01.
pub proof fn lemma_weekday_names()
    ensures
        forall|w: Weekday| weekday_named(#[trigger] day_abbreviation(w)) == Some(w),
        forall|s: Seq<char>|
            #[trigger] weekday_named(s) matches Some(w) ==> s == day_abbreviation(w),
        weekday_named(seq!['M', 'o', 'n']) == Some(weekday_of_date(2024, 1, 1)),
        weekday_named(seq!['T', 'u', 'e']) == Some(weekday_of_date(2024, 1, 2)),
        weekday_named(seq!['W', 'e', 'd']) == Some(weekday_of_date(2024, 1, 3)),
        weekday_named(seq!['T', 'h', 'u']) == Some(weekday_of_date(2024, 1, 4)),
        weekday_named(seq!['F', 'r', 'i']) == Some(weekday_of_date(2024, 1, 5)),
        weekday_named(seq!['S', 'a', 't']) == Some(weekday_of_date(2024, 1, 6)),
        weekday_named(seq!['S', 'u', 'n']) == Some(weekday_of_date(2024, 1, 7)),
        weekday_named(seq!['T', 'h', 'u']) == Some(weekday_of_date(1970, 1, 1)),
{
    let names = seq![
        seq!['M', 'o', 'n'],
        seq!['T', 'u', 'e'],
        seq!['W', 'e', 'd'],
        seq!['T', 'h', 'u'],
        seq!['F', 'r', 'i'],
        seq!['S', 'a', 't'],
        seq!['S', 'u', 'n'],
    ];
    assert forall|a: int, b: int| 0 <= a < 7 && 0 <= b < 7 && a != b implies names[a] != names[b] by {
        if names[a] == names[b] {
            assert(names[a][0] == names[b][0]);
            assert(names[a][1] == names[b][1]);
            assert(names[a][2] == names[b][2]);
        }
    }
    assert(names[0] != names[1]);
    assert(names[0] != names[2]);
    assert(names[0] != names[3]);
    assert(names[0] != names[4]);
    assert(names[0] != names[5]);
    assert(names[0] != names[6]);
    assert(names[1] != names[2]);
    assert(names[1] != names[3]);
    assert(names[1] != names[4]);
    assert(names[1] != names[5]);
    assert(names[1] != names[6]);
    assert(names[2] != names[3]);
    assert(names[2] != names[4]);
    assert(names[2] != names[5]);
    assert(names[2] != names[6]);
    assert(names[3] != names[4]);
    assert(names[3] != names[5]);
    assert(names[3] != names[6]);
    assert(names[4] != names[5]);
    assert(names[4] != names[6]);
    assert(names[5] != names[6]);
    assert(crate::calendar::day_number(2024, 1, 1) == 19723);
    assert(crate::calendar::day_number(2024, 1, 2) == 19724);
    assert(crate::calendar::day_number(2024, 1, 3) == 19725);
    assert(crate::calendar::day_number(2024, 1, 4) == 19726);
    assert(crate::calendar::day_number(2024, 1, 5) == 19727);
    assert(crate::calendar::day_number(2024, 1, 6) == 19728);
    assert(crate::calendar::day_number(2024, 1, 7) == 19729);
    assert(crate::calendar::day_number(1970, 1, 1) == 0);
}

/// The characters of `s` equal those of `lit`.
fn is_literal(s: &Vec<char>, lit: Vec<char>) -> (r: bool)
    ensures
        r == (s@ == lit@),
{
    same_chars(s, &lit)
}

/// Parses `HH:mm` on characters.
fn hhmm_of(s: &Vec<char>) -> (r: Result<(u32, u32), ScheduleError>)
    ensures
        r == hhmm_spec(s@),
{
    let parts = split_char(s, ':');
    if parts.len() != 2 {
        return Err(ScheduleError::TimeFormat);
    }
    let h = match parse_u32(&parts[0]) {
        Ok(h) => h,
        Err(e) => return Err(ScheduleError::Number(e)),
    };
    let m = match parse_u32(&parts[1]) {
        Ok(m) => m,
        Err(e) => return Err(ScheduleError::Number(e)),
    };
    Ok((h, m))
}

/// Parses a time of day written `HH:mm`. The two numbers are not checked
/// against 24 hours and 60 minutes here.
pub fn parse_hhmm(input: &str) -> (r: Result<(u32, u32), ScheduleError>)
    ensures
        r == hhmm_spec(input@),
{
    let v = chars_of(input);
    hhmm_of(&v)
}

/// The weekday named by the characters `s`.
fn weekday_of_chars(s: &Vec<char>) -> (r: Result<Weekday, ScheduleError>)
    ensures
        r == (match weekday_named(s@) {
            Some(w) => Ok::<Weekday, ScheduleError>(w),
            None => Err(ScheduleError::BadWeekday),
        }),
{
    if is_literal(s, vec!['M', 'o', 'n']) {
        Ok(Weekday::Mon)
    } else if is_literal(s, vec!['T', 'u', 'e']) {
        Ok(Weekday::Tue)
    } else if is_literal(s, vec!['W', 'e', 'd']) {
        Ok(Weekday::Wed)
    } else if is_literal(s, vec!['T', 'h', 'u']) {
        Ok(Weekday::Thu)
    } else if is_literal(s, vec!['F', 'r', 'i']) {
        Ok(Weekday::Fri)
    } else if is_literal(s, vec!['S', 'a', 't']) {
        Ok(Weekday::Sat)
    } else if is_literal(s, vec!['S', 'u', 'n']) {
        Ok(Weekday::Sun)
    } else {
        Err(ScheduleError::BadWeekday)
    }
}

/// Parses a weekday written `Mon`, `Tue`, `Wed`, `Thu`, `Fri`, `Sat` or `Sun`.
pub fn parse_weekday(input: &str) -> (r: Result<Weekday, ScheduleError>)
    ensures
        r == (match weekday_named(input@) {
            Some(w) => Ok::<Weekday, ScheduleError>(w),
            None => Err(ScheduleError::BadWeekday),
        }),
{
    let v = chars_of(input);
    weekday_of_chars(&v)
}

/// Parses a policy: type `daily` with value `HH:mm`, or type `weekly` with
/// value `Ddd HH:mm` (two words separated by white space).
pub fn parse_policy(policy_type: &str, policy_value: &str) -> (r: Result<Policy, ScheduleError>)
    ensures
        r == policy_spec(policy_type@, policy_value@),
{
    let t = chars_of(policy_type);
    let v = chars_of(policy_value);
    if is_literal(&t, vec!['d', 'a', 'i', 'l', 'y']) {
        match hhmm_of(&v) {
            Ok((h, m)) => Ok(Policy::Daily { hour: h, minute: m }),
            Err(e) => Err(e),
        }
    } else if is_literal(&t, vec!['w', 'e', 'e', 'k', 'l', 'y']) {
        let parts = split_words(&v);
        if parts.len() != 2 {
            return Err(ScheduleError::WeeklyFormat);
        }
        let w = weekday_of_chars(&parts[0])?;
        match hhmm_of(&parts[1]) {
            Ok((h, m)) => Ok(Policy::Weekly { weekday: w, hour: h, minute: m }),
            Err(e) => Err(e),
        }
    } else {
        Err(ScheduleError::UnsupportedPolicy)
    }
}

/// Days from today (weekday index `today`) to the first day the policy
/// runs on: 0 for a daily policy, and for a weekly policy the number of
/// days, from 0 to 6, to its weekday.
pub fn day_offset(policy: &Policy, today: u32) -> (delta: i64)
    requires
        today < 7,
    ensures
        delta == day_offset_spec(*policy, today as int),
        0 <= delta < 7,
        policy is Weekly ==> weekday_of_index(today + delta) == policy->weekday,
{
    match policy {
        Policy::Daily { .. } => 0,
        Policy::Weekly { weekday, .. } => {
            let target = weekday.num_days_from_monday() as i64;
            let mut delta = target - today as i64;
            if delta < 0 {
                delta += 7;
            }
            assert((today + delta) % 7 == weekday.index());
            delta
        },
    }
}

/// The run time that follows from the candidate instant the local clock
/// gave for the policy's date and time: none is an error, and a candidate
/// not after `now_seconds` moves on by one period of `period_days` days.
pub fn settle_next_run(
    candidate: Option<i64>,
    now_seconds: i64,
    period_days: i64,
    unresolved: ScheduleError,
) -> (r: Result<i64, ScheduleError>)
    requires
        candidate matches Some(c) ==> -TIMESTAMP_BOUND <= c <= TIMESTAMP_BOUND,
        1 <= period_days <= 7,
    ensures
        r matches Ok(t) ==> settled_spec(candidate, now_seconds as int, period_days as int, unresolved) == Ok::<int, ScheduleError>(t as int),
        r matches Err(e) ==> settled_spec(candidate, now_seconds as int, period_days as int, unresolved) == Err::<int, ScheduleError>(e),
{
    match candidate {
        None => Err(unresolved),
        Some(c) => if c <= now_seconds {
            Ok(c + period_days * SECONDS_PER_DAY)
        } else {
            Ok(c)
        },
    }
}

/// The local date on which the policy's first candidate falls: today for a
/// daily policy, the next day with the policy's weekday (today included)
/// for a weekly one.
pub fn candidate_date(policy: &Policy, now: &LocalNow) -> (r: Option<(i32, u32, u32)>)
    requires
        now.wf(),
    ensures
        policy is Daily ==> r == Some((now.year, now.month, now.day)),
        policy is Weekly && now.year < MAX_YEAR ==> r is Some,
        r matches Some((y, m, d)) ==> crate::calendar::valid_date(y as int, m as int, d as int),
        r matches Some((y, m, d)) ==> crate::calendar::MIN_YEAR <= y <= MAX_YEAR + 1,
        policy is Weekly ==> (r matches Some((y, m, d)) ==> weekday_of_date(y as int, m as int, d as int)
            == policy->weekday),
        policy is Weekly ==> (r matches Some((y, m, d)) ==> crate::calendar::day_number(y as int, m as int, d as int)
            == crate::calendar::day_number(now.year as int, now.month as int, now.day as int)
            + day_offset_spec(*policy, now.weekday_from_monday as int)),
{
    match policy {
        Policy::Daily { .. } => Some((now.year, now.month, now.day)),
        Policy::Weekly { .. } => {
            let delta = day_offset(policy, now.weekday_from_monday);
            let r = date_add_days(now.year, now.month, now.day, delta);
            proof {
                let n = crate::calendar::day_number(
                    now.year as int,
                    now.month as int,
                    now.day as int,
                );
                lemma_weekday_shift(n + 3, delta as int);
            }
            r
        },
    }
}

/// A local date and wall-clock time, as handed to the time zone.
#[derive(Clone, Copy, Debug, PartialEq, Eq, Structural)]
pub struct LocalDateTime {
    pub year: i32,
    pub month: u32,
    pub day: u32,
    pub hour: u32,
    pub minute: u32,
    pub second: u32,
}

/// The local date and time at which the policy's first candidate falls,
/// seen from the clock reading `now`: the candidate date with the policy's
/// hour and minute and second 0. There is none only when the candidate date
/// would leave the calendar's range.
pub fn next_run_request(policy: &Policy, now: &LocalNow) -> (r: Option<LocalDateTime>)
    requires
        now.wf(),
    ensures
        policy is Daily || now.year < MAX_YEAR ==> r is Some,
        r matches Some(q) ==> {
            &&& crate::calendar::valid_date(q.year as int, q.month as int, q.day as int)
            &&& day_number(q.year as int, q.month as int, q.day as int) == candidate_day(*policy, *now)
            &&& q.hour == policy.hour_of()
            &&& q.minute == policy.minute_of()
            &&& q.second == 0
            &&& (policy is Daily ==> q.year == now.year && q.month == now.month && q.day == now.day)
        },
{
    let (hour, minute) = match policy {
        Policy::Daily { hour, minute } => (*hour, *minute),
        Policy::Weekly { hour, minute, .. } => (*hour, *minute),
    };
    match candidate_date(policy, now) {
        Some((y, m, d)) => Some(LocalDateTime { year: y, month: m, day: d, hour, minute, second: 0 }),
        None => None,
    }
}

/// When the policy runs next, seen from the clock reading `now`: the
/// policy's time on its candidate date as the local time zone places it,
/// moved on by one period when that is not after `now`.
pub fn next_run_for(policy: &Policy, now: &LocalNow) -> (r: Result<i64, ScheduleError>)
    requires
        now.wf(),
    ensures
        next_run_outcome(*policy, *now, r),
{
    let unresolved = match policy {
        Policy::Daily { .. } => ScheduleError::InvalidDaily,
        Policy::Weekly { .. } => ScheduleError::InvalidWeekly,
    };
    let period = match policy {
        Policy::Daily { .. } => 1i64,
        Policy::Weekly { .. } => 7i64,
    };
    let q = match next_run_request(policy, now) {
        Some(q) => q,
        None => return Err(unresolved),
    };
    let resolved = local_to_utc_seconds(q.year, q.month, q.day, q.hour, q.minute, q.second);
    run_time_from_zone(policy, now, resolved)
}

/// The run time of the policy from what the local time zone answered for
/// its candidate date and time: no instant is the policy's error; the
/// instant `tc` the zone gives (with its offset `off`) is the run, moved on
/// by one period when it is not after the reading `now`.
pub fn run_time_from_zone(policy: &Policy, now: &LocalNow, resolved: Option<(i64, i32)>) -> (r: Result<i64, ScheduleError>)
    requires
        now.wf(),
        resolved matches Some((tc, off)) ==> {
            &&& -TIMESTAMP_BOUND <= tc <= TIMESTAMP_BOUND
            &&& -OFFSET_BOUND < off < OFFSET_BOUND
            &&& tc == candidate_wall(*policy, *now) - off
        },
    ensures
        resolved is None ==> r == Err::<i64, ScheduleError>(policy.unresolved()),
        resolved matches Some((tc, off)) ==> r == Ok::<i64, ScheduleError>(
            run_time_at_offset(*policy, *now, off as int) as i64,
        ),
{
    let unresolved = match policy {
        Policy::Daily { .. } => ScheduleError::InvalidDaily,
        Policy::Weekly { .. } => ScheduleError::InvalidWeekly,
    };
    let period = match policy {
        Policy::Daily { .. } => 1i64,
        Policy::Weekly { .. } => 7i64,
    };
    let candidate = match resolved {
        Some((t, _)) => Some(t),
        None => None,
    };
    settle_next_run(candidate, now.utc_seconds, period, unresolved)
}

/// What may come of working out the next run of a policy type and value
/// from the clock reading `now`: the parse error when it does not parse,
/// otherwise what `next_run_outcome` allows for the parsed policy.
pub open spec fn next_run_spec(policy_type: Seq<char>, value: Seq<char>, now: LocalNow, r: Result<i64, ScheduleError>) -> bool {
    match policy_spec(policy_type, value) {
        Err(e) => r == Err::<i64, ScheduleError>(e),
        Ok(p) => next_run_outcome(p, now, r),
    }
}

/// When a schedule with this policy type and value runs next, as seconds
/// since the Unix epoch, reading the local clock now. Parse errors come
/// first and exactly as `parse_policy` reports them; for a parsed policy,
/// the result is what `next_run_outcome` allows for the clock reading taken.
pub fn compute_next_run(policy_type: &str, policy_value: &str) -> (r: Result<i64, ScheduleError>)
    ensures
        exists|now: LocalNow| now.wf() && next_run_spec(policy_type@, policy_value@, now, r),
{
    let now = read_local_clock();
    let r = match parse_policy(policy_type, policy_value) {
        Err(e) => Err(e),
        Ok(policy) => next_run_for(&policy, &now),
    };
    assert(next_run_spec(policy_type@, policy_value@, now, r));
    r
}

/// What saving a schedule works out before it is stored: a blank backup
/// root is refused first, then the next run time of the policy.
pub fn plan_schedule(input: &SaveScheduleInput) -> (r: Result<i64, ScheduleError>)
    ensures
        is_blank(input.backup_root@) ==> r == Err::<i64, ScheduleError>(
            ScheduleError::BackupRootRequired,
        ),
        !is_blank(input.backup_root@) ==> exists|now: LocalNow|
            now.wf() && next_run_spec(input.policy_type@, input.policy_value@, now, r),
{
    if blank(input.backup_root.as_str()) {
        return Err(ScheduleError::BackupRootRequired);
    }
    compute_next_run(input.policy_type.as_str(), input.policy_value.as_str())
}

/// The schedule stored for `input` under `id`: not run yet, next run at
/// `next_run` seconds.
pub fn schedule_from_input(input: &SaveScheduleInput, id: String, next_run: i64) -> (s: SchedulePolicy)
    ensures
        s.id@ == id@,
        s.repo_id@ == input.repo_id@,
        s.backup_root@ == input.backup_root@,
        s.enabled == input.enabled,
        s.policy_type@ == input.policy_type@,
        s.policy_value@ == input.policy_value@,
        s.retention_count == input.retention_count,
        s.last_run_at is None,
        s.last_status is None,
        s.next_run_at == Some(Timestamp { seconds: next_run, nanos: 0 }),
{
    SchedulePolicy {
        id,
        repo_id: input.repo_id.clone(),
        backup_root: input.backup_root.clone(),
        enabled: input.enabled,
        policy_type: input.policy_type.clone(),
        policy_value: input.policy_value.clone(),
        retention_count: input.retention_count,
        last_run_at: None,
        last_status: None,
        next_run_at: Some(Timestamp::at_second(next_run)),
    }
}

/// A schedule is due at `now`: it is enabled and its next run is not later
/// than `now`.
pub open spec fn is_due(s: SchedulePolicy, now: Timestamp) -> bool {
    &&& s.enabled
    &&& s.next_run_at matches Some(t) && t.not_after(now)
}

/// The positions, in increasing order, of the schedules that are due at
/// `now`.
pub fn due_schedule_indices(schedules: &Vec<SchedulePolicy>, now: Timestamp) -> (r: Vec<usize>)
    ensures
        forall|k: int| 0 <= k < r@.len() ==> #[trigger] r@[k] < schedules@.len() && is_due(schedules@[r@[k] as int], now),
        forall|i: int| 0 <= i < schedules@.len() && is_due(schedules@[i], now) ==> r@.contains(i as usize),
        forall|k: int, l: int| 0 <= k < l < r@.len() ==> r@[k] < r@[l],
{
    let mut r: Vec<usize> = Vec::new();
    let mut i: usize = 0;
    while i < schedules.len()
        invariant
            i <= schedules.len(),
            forall|k: int| 0 <= k < r@.len() ==> #[trigger] r@[k] < i && is_due(schedules@[r@[k] as int], now),
            forall|j: int| 0 <= j < i && is_due(schedules@[j], now) ==> r@.contains(j as usize),
            forall|k: int, l: int| 0 <= k < l < r@.len() ==> r@[k] < r@[l],
        decreases schedules.len() - i,
    {
        let s = &schedules[i];
        let due = s.enabled && match &s.next_run_at {
            Some(t) => t.is_not_after(&now),
            None => false,
        };
        if due {
            let ghost before = r@;
            r.push(i);
            assert forall|j: int| 0 <= j < i + 1 && is_due(schedules@[j], now) implies r@.contains(j as usize) by {
                if j < i {
                    let w = choose|w: int| 0 <= w < before.len() && before[w] == j as usize;
                    assert(r@[w] == j as usize);
                } else {
                    assert(r@[before.len() as int] == i);
                }
            }
        }
        i += 1;
    }
    r
}

/// What a schedule run records once its backup is over.
#[derive(Clone, Debug)]
pub struct ScheduleRunUpdate {
    /// `success` or `failed`, after the backup.
    pub status: String,
    /// The next run.
    pub next_run_at: Timestamp,
    /// Old snapshots are cleaned up only after a successful backup.
    pub clean_up: bool,
}

/// What a schedule run records after its backup succeeded or failed: the
/// backup's status, the policy's next run time (whose errors end the run),
/// and whether old snapshots are cleaned up.
pub fn schedule_run_update(backup_succeeded: bool, policy_type: &str, policy_value: &str) -> (r: Result<
    ScheduleRunUpdate,
    ScheduleError,
>)
    ensures
        exists|now: LocalNow|
            now.wf() && next_run_spec(
                policy_type@,
                policy_value@,
                now,
                match r {
                    Ok(u) => Ok::<i64, ScheduleError>(u.next_run_at.seconds),
                    Err(e) => Err(e),
                },
            ),
        r matches Ok(u) ==> u.status@ == status_text(backup_succeeded),
        r matches Ok(u) ==> u.clean_up == backup_succeeded,
        r matches Ok(u) ==> u.next_run_at.nanos == 0,
{
    let next = compute_next_run(policy_type, policy_value)?;
    Ok(
        ScheduleRunUpdate {
            status: run_status(backup_succeeded),
            next_run_at: Timestamp::at_second(next),
            clean_up: backup_succeeded,
        },
    )
}

} // verus!
