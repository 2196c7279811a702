use cron_tab::{AsyncCron, AsyncEntry, CronError, CronSchedule, UtcOffset};

const NEW_YEAR_2024: i64 = 1_704_067_200_000; // 2024-01-01T00:00:00Z

#[test]
fn async_entry_next_times() {
    let entry: AsyncEntry<()> = AsyncEntry {
        id: 1,
        next: None,
        schedule: CronSchedule::parse("* * * * * *").unwrap(),
        run: (),
    };
    let now = chrono::Utc::now().timestamp_millis();
    let next = entry.get_next(UtcOffset::utc());
    assert!(next.is_some());
    assert!(next.unwrap() > now);
    assert_eq!(entry.get_next_after(UtcOffset::utc(), NEW_YEAR_2024), Some(NEW_YEAR_2024 + 1_000));
    let debug_str = format!("{:?}", entry);
    assert!(debug_str.contains("AsyncEntry"));
    assert!(debug_str.contains("id: 1"));
}

#[test]
fn async_entry_without_fire_time() {
    let entry: AsyncEntry<()> = AsyncEntry {
        id: 1,
        next: None,
        schedule: CronSchedule::parse("0 0 0 31 2 * *").unwrap(),
        run: (),
    };
    assert_eq!(entry.get_next(UtcOffset::utc()), None);
}

#[test]
fn async_ids_and_errors() {
    let mut cron: AsyncCron<u32> = AsyncCron::new(UtcOffset::utc());
    assert_eq!(cron.add_fn_from("* * * * * * *", 1, NEW_YEAR_2024).unwrap(), 0);
    assert_eq!(cron.add_fn("*/2 * * * * * *", 2).unwrap(), 1);
    let invalid = [
        "invalid",
        "* * * * *",
        "60 * * * * * *",
        "* 60 * * * * *",
        "* * 25 * * * *",
        "* * * 32 * * *",
        "* * * * 13 * *",
        "* * * * * 8 *",
        "* * * * * * * *",
    ];
    for expr in invalid.iter() {
        assert!(matches!(cron.add_fn(expr, 0), Err(CronError::ParseError(_))), "Expected error for expression: {}", expr);
    }
    assert_eq!(cron.add_fn("0 0 12 * * 1-5 *", 3).unwrap(), 2);
}

#[test]
fn async_jobs_run_and_reschedule() {
    let mut cron: AsyncCron<u32> = AsyncCron::new(UtcOffset::utc());
    cron.add_fn_from("* * * * * * *", 1, NEW_YEAR_2024).unwrap();
    cron.add_fn_from("*/2 * * * * * *", 2, NEW_YEAR_2024).unwrap();
    cron.reset_next_times(NEW_YEAR_2024);
    assert_eq!(cron.next_wait(NEW_YEAR_2024), 1_000);
    assert_eq!(cron.fire_due(NEW_YEAR_2024 + 1_000), vec![1]);
    assert_eq!(cron.fire_due(NEW_YEAR_2024 + 2_000), vec![1, 2]);
    assert!(cron.fire_due(NEW_YEAR_2024 + 2_000).is_empty());
    assert_eq!(cron.next_wait(NEW_YEAR_2024 + 2_000), 1_000);
}

#[test]
fn async_remove_stops_the_job() {
    let mut cron: AsyncCron<u32> = AsyncCron::new(UtcOffset::utc());
    let a = cron.add_fn_from("* * * * * * *", 1, NEW_YEAR_2024).unwrap();
    cron.add_fn_from("* * * * * * *", 2, NEW_YEAR_2024).unwrap();
    cron.remove(a);
    cron.remove(a);
    cron.remove(9999);
    assert_eq!(cron.fire_due(NEW_YEAR_2024 + 1_000), vec![2]);
}

#[test]
fn async_timezone_changes_next_times() {
    let mut cron: AsyncCron<u32> = AsyncCron::new(UtcOffset::utc());
    cron.add_fn_from("0 0 12 * * * *", 1, NEW_YEAR_2024).unwrap();
    assert_eq!(cron.next_wait(NEW_YEAR_2024), 12 * 3_600_000);
    cron.set_timezone_at(UtcOffset::east_opt(9 * 3600).unwrap(), NEW_YEAR_2024);
    assert_eq!(cron.next_wait(NEW_YEAR_2024), 3 * 3_600_000);
    cron.follow_offset_at(UtcOffset::east_opt(9 * 3600).unwrap(), NEW_YEAR_2024);
    assert_eq!(cron.next_wait(NEW_YEAR_2024), 3 * 3_600_000);
    cron.set_timezone(UtcOffset::utc());
    assert_eq!(cron.jobs().len(), 1);
}

#[test]
fn async_schedule_without_fire_time_is_never_due() {
    let mut cron: AsyncCron<u32> = AsyncCron::new(UtcOffset::utc());
    cron.add_fn_from("0 0 0 30 2 * *", 1, NEW_YEAR_2024).unwrap();
    cron.add_fn_from("0 0 0 1 1 * 2030", 2, NEW_YEAR_2024).unwrap();
    assert_eq!(cron.next_wait(NEW_YEAR_2024), (1_893_456_000_000 - NEW_YEAR_2024) as u64);
    assert!(cron.fire_due(NEW_YEAR_2024 + 1_000).is_empty());
}

#[test]
fn async_capped_wait_is_at_most_a_minute() {
    let mut cron: AsyncCron<u32> = AsyncCron::new(UtcOffset::utc());
    assert_eq!(cron.next_wait_capped(NEW_YEAR_2024), 60_000);
    cron.add_fn_from("0 0 12 * * * *", 1, NEW_YEAR_2024).unwrap();
    assert_eq!(cron.next_wait_capped(NEW_YEAR_2024), 60_000);
    cron.add_fn_from("5 0 0 * * * *", 2, NEW_YEAR_2024).unwrap();
    assert_eq!(cron.next_wait_capped(NEW_YEAR_2024), 5_000);
}
