use openapi_gateway::cron::{
    civil_from_epoch, parse_cron, schedule_fires, seconds_until_next_minute, CivilTime,
};

fn at(minute: u8, hour: u8, day: u8, month: u8, day_of_week: u8) -> CivilTime {
    CivilTime { year: 2024, month, day, hour, minute, day_of_week }
}

#[test]
fn every_minute_fires_always() {
    let schedule = parse_cron("* * * * *").unwrap();
    assert!(schedule.minute.any);
    assert!(schedule_fires(&schedule, &at(0, 0, 1, 1, 0)));
    assert!(schedule_fires(&schedule, &at(59, 23, 31, 12, 6)));
    assert!(schedule_fires(&schedule, &at(17, 3, 9, 6, 2)));
}

#[test]
fn fixed_minute_and_hour() {
    let schedule = parse_cron("0 12 * * *").unwrap();
    assert!(schedule_fires(&schedule, &at(0, 12, 5, 3, 1)));
    assert!(!schedule_fires(&schedule, &at(1, 12, 5, 3, 1)));
    assert!(!schedule_fires(&schedule, &at(0, 13, 5, 3, 1)));
}

#[test]
fn lists_and_ranges() {
    let schedule = parse_cron("0,30 9-17 * * 1-5").unwrap();
    assert!(schedule_fires(&schedule, &at(30, 9, 5, 3, 1)));
    assert!(schedule_fires(&schedule, &at(0, 17, 5, 3, 5)));
    assert!(!schedule_fires(&schedule, &at(15, 9, 5, 3, 1)));
    assert!(!schedule_fires(&schedule, &at(0, 8, 5, 3, 1)));
    assert!(!schedule_fires(&schedule, &at(0, 9, 5, 3, 0)));
}

#[test]
fn malformed_expressions_are_rejected() {
    assert!(parse_cron("").is_none());
    assert!(parse_cron("* * * *").is_none());
    assert!(parse_cron("* * * * * *").is_none());
    assert!(parse_cron("a * * * *").is_none());
    assert!(parse_cron("61 * * * *").is_none());
    assert!(parse_cron("* 24 * * *").is_none());
    assert!(parse_cron("5-3 * * * *").is_none());
    assert!(parse_cron("* * 0 * *").is_none());
}

#[test]
fn extra_spaces_are_tolerated() {
    let schedule = parse_cron("  *  * *  * *  ").unwrap();
    assert!(schedule.minute.any);
    assert!(schedule.day_of_week.any);
}

#[test]
fn civil_time_at_the_epoch() {
    let t = civil_from_epoch(0);
    assert_eq!(t.year, 1970);
    assert_eq!(t.month, 1);
    assert_eq!(t.day, 1);
    assert_eq!(t.hour, 0);
    assert_eq!(t.minute, 0);
    // 1970-01-01 was a Thursday.
    assert_eq!(t.day_of_week, 4);
}

#[test]
fn civil_time_of_known_timestamps() {
    // 2001-09-09 01:46:40 UTC, a Sunday.
    let t = civil_from_epoch(1_000_000_000);
    assert_eq!((t.year, t.month, t.day), (2001, 9, 9));
    assert_eq!((t.hour, t.minute), (1, 46));
    assert_eq!(t.day_of_week, 0);

    // 2023-11-14 22:13:20 UTC, a Tuesday.
    let t = civil_from_epoch(1_700_000_000);
    assert_eq!((t.year, t.month, t.day), (2023, 11, 14));
    assert_eq!((t.hour, t.minute), (22, 13));
    assert_eq!(t.day_of_week, 2);
}

#[test]
fn civil_time_handles_leap_days() {
    // 2000-02-29 00:00:00 UTC, a Tuesday.
    let t = civil_from_epoch(951_782_400);
    assert_eq!((t.year, t.month, t.day), (2000, 2, 29));
    assert_eq!(t.day_of_week, 2);

    // 1900 was not a leap year: 1900-03-01 follows 1900-02-28. Checked
    // forward from the epoch only, so use 2100, also not a leap year:
    // 2100-03-01 00:00:00 UTC is 4107542400.
    let t = civil_from_epoch(4_107_542_400);
    assert_eq!((t.year, t.month, t.day), (2100, 3, 1));
}

#[test]
fn next_minute_boundary_is_within_a_minute() {
    assert_eq!(seconds_until_next_minute(0), 60);
    assert_eq!(seconds_until_next_minute(59), 1);
    assert_eq!(seconds_until_next_minute(60), 60);
    assert_eq!(seconds_until_next_minute(61), 59);
    // The first fire after time T of the every-minute schedule is the next
    // minute boundary: within (T_next_minute - T) of T.
    let t: u64 = 1_700_000_000;
    let wait = seconds_until_next_minute(t);
    assert!((1..=60).contains(&wait));
    assert_eq!((t + wait) % 60, 0);
}

#[test]
fn next_fire_of_the_every_minute_schedule_is_the_next_boundary() {
    let schedule = parse_cron("* * * * *").unwrap();
    // 1_700_000_000 is 20 seconds past a minute boundary.
    let t = openapi_gateway::cron::next_fire(&schedule, 1_700_000_000, 10).unwrap();
    assert_eq!(t, 1_700_000_040);
    // From a boundary itself, the next fire is the following boundary.
    let t = openapi_gateway::cron::next_fire(&schedule, 1_700_000_040, 10).unwrap();
    assert_eq!(t, 1_700_000_100);
}

#[test]
fn next_fire_of_a_daily_schedule() {
    let schedule = parse_cron("0 12 * * *").unwrap();
    // From 2023-11-14 22:13:20 UTC, the next noon is 2023-11-15 12:00:00.
    let t = openapi_gateway::cron::next_fire(&schedule, 1_700_000_000, 2000).unwrap();
    assert_eq!(t, 1_700_049_600);
}

#[test]
fn next_fire_reports_a_fireless_window() {
    let schedule = parse_cron("0 12 * * *").unwrap();
    // Ten minutes from 22:13 never reach noon.
    assert!(openapi_gateway::cron::next_fire(&schedule, 1_700_000_000, 10).is_none());
}
