use cron_tab::{CronError, CronSchedule, UtcOffset};

const NEW_YEAR_2024: i64 = 1_704_067_200_000; // 2024-01-01T00:00:00Z

#[test]
fn parse_keeps_the_expression() {
    let s = CronSchedule::parse("0 30 9 * * MON-FRI *").unwrap();
    assert_eq!(s.source(), "0 30 9 * * MON-FRI *");
}

#[test]
fn parse_rejects_garbage() {
    assert!(matches!(CronSchedule::parse("not-a-cron-expression"), Err(CronError::ParseError(_))));
    assert!(matches!(CronSchedule::parse("* * *"), Err(CronError::ParseError(_))));
    assert!(matches!(CronSchedule::parse("0 0 25 * * * *"), Err(CronError::ParseError(_))));
}

#[test]
fn noon_in_utc_and_in_tokyo() {
    let s = CronSchedule::parse("0 0 12 * * * *").unwrap();
    // Noon UTC on 2024-01-01.
    assert_eq!(s.next_after(UtcOffset::utc(), NEW_YEAR_2024), Some(NEW_YEAR_2024 + 12 * 3_600_000));
    // Noon in Tokyo (UTC+9) is 03:00 UTC.
    let tokyo = UtcOffset::east_opt(9 * 3600).unwrap();
    assert_eq!(s.next_after(tokyo, NEW_YEAR_2024), Some(NEW_YEAR_2024 + 3 * 3_600_000));
    // Noon in New York (UTC-5) is 17:00 UTC.
    let new_york = UtcOffset::west_opt(5 * 3600).unwrap();
    assert_eq!(s.next_after(new_york, NEW_YEAR_2024), Some(NEW_YEAR_2024 + 17 * 3_600_000));
}

#[test]
fn every_five_seconds() {
    let s = CronSchedule::parse("*/5 * * * * * *").unwrap();
    assert_eq!(s.next_after(UtcOffset::utc(), NEW_YEAR_2024), Some(NEW_YEAR_2024 + 5_000));
    assert_eq!(s.next_after(UtcOffset::utc(), NEW_YEAR_2024 + 7_000), Some(NEW_YEAR_2024 + 10_000));
}

#[test]
fn schedules_without_a_later_fire_time() {
    // February 30th never comes.
    let s = CronSchedule::parse("0 0 0 30 2 * *").unwrap();
    assert_eq!(s.next_after(UtcOffset::utc(), NEW_YEAR_2024), None);
    // A year in the past.
    let s = CronSchedule::parse("0 0 0 1 1 * 2020").unwrap();
    assert_eq!(s.next_after(UtcOffset::utc(), NEW_YEAR_2024), None);
    // Instants outside the looked-up range.
    let s = CronSchedule::parse("* * * * * * *").unwrap();
    assert_eq!(s.next_after(UtcOffset::utc(), i64::MAX), None);
}

#[test]
fn clones_keep_the_expression() {
    let s = CronSchedule::parse("0 0 9,17 * * * *").unwrap();
    let c = s.clone();
    assert_eq!(c.source(), "0 0 9,17 * * * *");
    assert_eq!(c.next_after(UtcOffset::utc(), NEW_YEAR_2024), Some(NEW_YEAR_2024 + 9 * 3_600_000));
}
