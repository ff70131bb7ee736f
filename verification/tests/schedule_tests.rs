use chrono::{Datelike, Local, TimeZone, Timelike, Utc};
use hfss_file_manager::calendar::Weekday;
use hfss_file_manager::clock::LocalNow;
use hfss_file_manager::schedule::{
    candidate_date, compute_next_run, next_run_for, next_run_request, LocalDateTime, day_offset, due_schedule_indices, parse_hhmm, parse_policy,
    parse_weekday, plan_schedule, schedule_from_input, schedule_run_update, settle_next_run,
    Policy, ScheduleError,
};
use hfss_file_manager::text::NumberError;
use hfss_file_manager::types::{SaveScheduleInput, SchedulePolicy, Timestamp};

#[test]
fn parse_hhmm_accepts_times() {
    assert_eq!(parse_hhmm("09:30"), Ok((9, 30)));
    assert_eq!(parse_hhmm("9:5"), Ok((9, 5)));
    assert_eq!(parse_hhmm("+9:05"), Ok((9, 5)));
    assert_eq!(parse_hhmm("25:00"), Ok((25, 0)));
    assert_eq!(parse_hhmm("4294967295:0"), Ok((4294967295, 0)));
}

#[test]
fn parse_hhmm_reports_format_errors() {
    assert_eq!(parse_hhmm("0930"), Err(ScheduleError::TimeFormat));
    assert_eq!(parse_hhmm("09:30:00"), Err(ScheduleError::TimeFormat));
    assert_eq!(parse_hhmm(""), Err(ScheduleError::TimeFormat));
}

#[test]
fn parse_hhmm_reports_number_errors() {
    assert_eq!(parse_hhmm(":30"), Err(ScheduleError::Number(NumberError::Empty)));
    assert_eq!(parse_hhmm("09:"), Err(ScheduleError::Number(NumberError::Empty)));
    assert_eq!(parse_hhmm("ab:30"), Err(ScheduleError::Number(NumberError::InvalidDigit)));
    assert_eq!(parse_hhmm("-1:00"), Err(ScheduleError::Number(NumberError::InvalidDigit)));
    assert_eq!(parse_hhmm("+:00"), Err(ScheduleError::Number(NumberError::InvalidDigit)));
    assert_eq!(parse_hhmm(" 9:00"), Err(ScheduleError::Number(NumberError::InvalidDigit)));
    assert_eq!(parse_hhmm("4294967296:00"), Err(ScheduleError::Number(NumberError::Overflow)));
    // the hour's error comes first
    assert_eq!(parse_hhmm("x:"), Err(ScheduleError::Number(NumberError::InvalidDigit)));
    // at one character, a non-digit is reported before an overflow
    assert_eq!(parse_hhmm("99999999999:0"), Err(ScheduleError::Number(NumberError::Overflow)));
    assert_eq!(parse_hhmm("9999999999x:0"), Err(ScheduleError::Number(NumberError::Overflow)));
    assert_eq!(parse_hhmm("999999999x:0"), Err(ScheduleError::Number(NumberError::InvalidDigit)));
}

#[test]
fn parse_hhmm_agrees_with_std_parse() {
    for text in ["0", "00", "+0", "-0", "+", "-", "", "12a", "4294967295", "4294967296", "0004294967295", "١٢"] {
        let expected = text.parse::<u32>().ok();
        let got = parse_hhmm(&format!("{text}:0")).ok().map(|(h, _)| h);
        assert_eq!(got, expected, "hour text {text:?}");
    }
}

#[test]
fn parse_weekday_names() {
    assert_eq!(parse_weekday("Mon"), Ok(Weekday::Mon));
    assert_eq!(parse_weekday("Sun"), Ok(Weekday::Sun));
    assert_eq!(parse_weekday("mon"), Err(ScheduleError::BadWeekday));
    assert_eq!(parse_weekday("Monday"), Err(ScheduleError::BadWeekday));
}

#[test]
fn parse_policy_daily_and_weekly() {
    assert_eq!(parse_policy("daily", "09:30"), Ok(Policy::Daily { hour: 9, minute: 30 }));
    assert_eq!(
        parse_policy("weekly", "Mon 09:30"),
        Ok(Policy::Weekly { weekday: Weekday::Mon, hour: 9, minute: 30 })
    );
    assert_eq!(
        parse_policy("weekly", "  Tue\t\u{3000}10:00 \n"),
        Ok(Policy::Weekly { weekday: Weekday::Tue, hour: 10, minute: 0 })
    );
}

#[test]
fn parse_policy_errors() {
    assert_eq!(parse_policy("weekly", "Mon"), Err(ScheduleError::WeeklyFormat));
    assert_eq!(parse_policy("weekly", "Mon 09:30 x"), Err(ScheduleError::WeeklyFormat));
    assert_eq!(parse_policy("weekly", "Xyz 10:00"), Err(ScheduleError::BadWeekday));
    assert_eq!(parse_policy("weekly", "Mon 9"), Err(ScheduleError::TimeFormat));
    assert_eq!(parse_policy("monthly", "1 09:00"), Err(ScheduleError::UnsupportedPolicy));
    assert_eq!(parse_policy("Daily", "09:00"), Err(ScheduleError::UnsupportedPolicy));
    assert_eq!(parse_policy("daily", "9h"), Err(ScheduleError::TimeFormat));
}

#[test]
fn day_offset_values() {
    let daily = Policy::Daily { hour: 1, minute: 0 };
    assert_eq!(day_offset(&daily, 4), 0);
    let wed = Policy::Weekly { weekday: Weekday::Wed, hour: 1, minute: 0 };
    assert_eq!(day_offset(&wed, 0), 2);
    assert_eq!(day_offset(&wed, 2), 0);
    assert_eq!(day_offset(&wed, 6), 3);
}

#[test]
fn settle_next_run_values() {
    assert_eq!(settle_next_run(None, 100, 1, ScheduleError::InvalidDaily), Err(ScheduleError::InvalidDaily));
    assert_eq!(settle_next_run(Some(200), 100, 1, ScheduleError::InvalidDaily), Ok(200));
    assert_eq!(settle_next_run(Some(100), 100, 1, ScheduleError::InvalidDaily), Ok(100 + 86400));
    assert_eq!(settle_next_run(Some(50), 100, 7, ScheduleError::InvalidWeekly), Ok(50 + 7 * 86400));
}

fn reading(utc: i64, year: i32, month: u32, day: u32, hour: u32, minute: u32, second: u32, weekday: u32) -> LocalNow {
    LocalNow {
        utc_seconds: utc,
        year,
        month,
        day,
        hour,
        minute,
        second,
        weekday_from_monday: weekday,
        offset_seconds: 0,
    }
}

/// The machine's time zone is UTC around January 2024.
fn local_is_utc() -> bool {
    Local.timestamp_opt(1704067200, 0).unwrap().offset().local_minus_utc() == 0
        && Local.timestamp_opt(1704704400, 0).unwrap().offset().local_minus_utc() == 0
}

#[test]
fn next_run_request_values() {
    let wed = reading(1704276000, 2024, 1, 3, 10, 0, 0, 2);
    let mon = Policy::Weekly { weekday: Weekday::Mon, hour: 9, minute: 0 };
    assert_eq!(
        next_run_request(&mon, &wed),
        Some(LocalDateTime { year: 2024, month: 1, day: 8, hour: 9, minute: 0, second: 0 })
    );
    let daily = Policy::Daily { hour: 23, minute: 59 };
    assert_eq!(
        next_run_request(&daily, &wed),
        Some(LocalDateTime { year: 2024, month: 1, day: 3, hour: 23, minute: 59, second: 0 })
    );
}

#[test]
fn next_run_moves_on_a_week_when_passed() {
    if !local_is_utc() {
        return;
    }
    // Monday 2024-01-01 10:00 UTC: Monday 09:00 has passed, so the next Monday
    let mon_now = reading(1704103200, 2024, 1, 1, 10, 0, 0, 0);
    let mon = Policy::Weekly { weekday: Weekday::Mon, hour: 9, minute: 0 };
    assert_eq!(next_run_for(&mon, &mon_now), Ok(1704704400));
    // Wednesday 2024-01-03 10:00 UTC: the coming Monday
    let wed_now = reading(1704276000, 2024, 1, 3, 10, 0, 0, 2);
    assert_eq!(next_run_for(&mon, &wed_now), Ok(1704704400));
    // the same time today is later: today
    let mon11 = Policy::Weekly { weekday: Weekday::Mon, hour: 11, minute: 0 };
    assert_eq!(next_run_for(&mon11, &mon_now), Ok(1704106800));
}

#[test]
fn next_run_daily_moves_on_a_day_when_passed() {
    if !local_is_utc() {
        return;
    }
    let now = reading(1704103200, 2024, 1, 1, 10, 0, 0, 0);
    assert_eq!(next_run_for(&Policy::Daily { hour: 9, minute: 30 }, &now), Ok(1704187800));
    assert_eq!(next_run_for(&Policy::Daily { hour: 10, minute: 0 }, &now), Ok(1704103200 + 86400));
    assert_eq!(next_run_for(&Policy::Daily { hour: 10, minute: 1 }, &now), Ok(1704103260));
    assert_eq!(next_run_for(&Policy::Daily { hour: 24, minute: 0 }, &now), Err(ScheduleError::InvalidDaily));
}

#[test]
fn candidate_date_weekly_lands_on_weekday() {
    // 2024-05-01 was a Wednesday
    let now = reading(1714557600, 2024, 5, 1, 10, 0, 0, 2);
    let daily = Policy::Daily { hour: 9, minute: 0 };
    assert_eq!(candidate_date(&daily, &now), Some((2024, 5, 1)));
    let mon = Policy::Weekly { weekday: Weekday::Mon, hour: 9, minute: 0 };
    assert_eq!(candidate_date(&mon, &now), Some((2024, 5, 6)));
    let wed = Policy::Weekly { weekday: Weekday::Wed, hour: 9, minute: 0 };
    assert_eq!(candidate_date(&wed, &now), Some((2024, 5, 1)));
    // across a month and a leap day
    let end = reading(1709164800, 2024, 2, 29, 0, 0, 0, 3);
    let tue = Policy::Weekly { weekday: Weekday::Tue, hour: 9, minute: 0 };
    assert_eq!(candidate_date(&tue, &end), Some((2024, 3, 5)));
}

#[test]
fn compute_next_run_daily_is_next_occurrence() {
    let before = Utc::now().timestamp();
    let t = compute_next_run("daily", "09:30").unwrap();
    let after = Utc::now().timestamp();
    assert!(t > before - 1);
    assert!(t <= after + 2 * 86400);
    let local = Local.timestamp_opt(t, 0).unwrap();
    assert_eq!((local.hour(), local.minute(), local.second()), (9, 30, 0));
}

#[test]
fn compute_next_run_weekly_is_on_weekday() {
    let before = Utc::now().timestamp();
    let t = compute_next_run("weekly", "Fri 18:45").unwrap();
    assert!(t > before - 1);
    assert!(t <= before + 8 * 86400);
    let local = Local.timestamp_opt(t, 0).unwrap();
    assert_eq!(local.weekday(), chrono::Weekday::Fri);
    assert_eq!((local.hour(), local.minute()), (18, 45));
}

#[test]
fn compute_next_run_errors() {
    assert_eq!(compute_next_run("daily", "24:00"), Err(ScheduleError::InvalidDaily));
    assert_eq!(compute_next_run("daily", "10:60"), Err(ScheduleError::InvalidDaily));
    assert_eq!(compute_next_run("weekly", "Mon 99:00"), Err(ScheduleError::InvalidWeekly));
    assert_eq!(compute_next_run("hourly", "10:00"), Err(ScheduleError::UnsupportedPolicy));
    assert_eq!(compute_next_run("daily", "10-00"), Err(ScheduleError::TimeFormat));
}

fn input(root: &str, policy_type: &str, policy_value: &str) -> SaveScheduleInput {
    SaveScheduleInput {
        repo_id: "r1".to_string(),
        backup_root: root.to_string(),
        enabled: true,
        policy_type: policy_type.to_string(),
        policy_value: policy_value.to_string(),
        retention_count: 3,
    }
}

#[test]
fn plan_schedule_refuses_blank_root_first() {
    assert_eq!(plan_schedule(&input("", "daily", "09:00")), Err(ScheduleError::BackupRootRequired));
    assert_eq!(plan_schedule(&input(" \t\u{3000}", "bogus", "")), Err(ScheduleError::BackupRootRequired));
    assert_eq!(plan_schedule(&input("D:/bk", "bogus", "")), Err(ScheduleError::UnsupportedPolicy));
    assert!(plan_schedule(&input("D:/bk", "daily", "08:00")).is_ok());
}

#[test]
fn schedule_from_input_copies_fields() {
    let i = input("D:/bk", "weekly", "Mon 09:00");
    let s = schedule_from_input(&i, "id-1".to_string(), 1700000000);
    assert_eq!(s.id, "id-1");
    assert_eq!(s.repo_id, "r1");
    assert_eq!(s.backup_root, "D:/bk");
    assert!(s.enabled);
    assert_eq!(s.policy_type, "weekly");
    assert_eq!(s.policy_value, "Mon 09:00");
    assert_eq!(s.retention_count, 3);
    assert_eq!(s.last_run_at, None);
    assert_eq!(s.last_status, None);
    assert_eq!(s.next_run_at, Some(Timestamp { seconds: 1700000000, nanos: 0 }));
}

fn schedule(enabled: bool, next: Option<Timestamp>) -> SchedulePolicy {
    SchedulePolicy {
        id: "s".to_string(),
        repo_id: "r".to_string(),
        backup_root: "b".to_string(),
        enabled,
        policy_type: "daily".to_string(),
        policy_value: "09:00".to_string(),
        retention_count: 1,
        last_run_at: None,
        last_status: None,
        next_run_at: next,
    }
}

#[test]
fn due_schedules_are_enabled_and_not_later_than_now() {
    let now = Timestamp { seconds: 1000, nanos: 500 };
    let list = vec![
        schedule(true, Some(Timestamp { seconds: 999, nanos: 0 })),
        schedule(false, Some(Timestamp { seconds: 10, nanos: 0 })),
        schedule(true, None),
        schedule(true, Some(Timestamp { seconds: 1000, nanos: 500 })),
        schedule(true, Some(Timestamp { seconds: 1000, nanos: 501 })),
        schedule(true, Some(Timestamp { seconds: 2000, nanos: 0 })),
    ];
    assert_eq!(due_schedule_indices(&list, now), vec![0, 3]);
    assert_eq!(due_schedule_indices(&Vec::new(), now), Vec::<usize>::new());
}

#[test]
fn schedule_run_update_after_backup() {
    let ok = schedule_run_update(true, "daily", "06:00").unwrap();
    assert_eq!(ok.status, "success");
    assert!(ok.clean_up);
    assert_eq!(ok.next_run_at.nanos, 0);
    let failed = schedule_run_update(false, "weekly", "Sun 06:00").unwrap();
    assert_eq!(failed.status, "failed");
    assert!(!failed.clean_up);
    assert_eq!(schedule_run_update(true, "weekly", "Sun").unwrap_err(), ScheduleError::WeeklyFormat);
}

#[test]
fn weekday_numbers() {
    assert_eq!(Weekday::Mon.num_days_from_monday(), 0);
    assert_eq!(Weekday::Sun.num_days_from_monday(), 6);
}
