use cron_tab::{Cron, CronError, Delay, UtcOffset};

type Job = Box<dyn Fn() + Send + Sync>;

const NEW_YEAR_2024: i64 = 1_704_067_200_000; // 2024-01-01T00:00:00Z

fn utc_cron() -> Cron<Job> {
    Cron::new(UtcOffset::utc())
}

#[test]
fn test_duration_out_of_range_error() {
    let mut cron = utc_cron();

    // Test with an extremely large duration that exceeds chrono's limit
    let very_long_time = Delay::from_secs(u64::MAX);
    let result = cron.add_fn_after(very_long_time, Box::new(|| {
        println!("This should not execute");
    }));

    assert!(result.is_err(), "Should fail with DurationOutOfRange");
    match result {
        Err(CronError::DurationOutOfRange) => {}
        Err(e) => panic!("Expected DurationOutOfRange, got {:?}", e),
        Ok(_) => panic!("Should have returned an error"),
    }

    // Test with a reasonable duration (should succeed)
    let normal_duration = Delay::from_secs(10);
    let result = cron.add_fn_after(normal_duration, Box::new(|| {
        println!("This will execute");
    }));

    assert!(result.is_ok(), "Should succeed with normal duration");
}

#[test]
fn test_invalid_cron_expressions() {
    let mut cron = utc_cron();

    // Test completely invalid expression
    let result = cron.add_fn("invalid", Box::new(|| {}));
    assert!(result.is_err());
    match result.unwrap_err() {
        CronError::ParseError(_) => {}
        _ => panic!("Expected ParseError"),
    }

    // Test empty expression
    let result = cron.add_fn("", Box::new(|| {}));
    assert!(result.is_err());

    // Test expression with wrong number of fields
    let result = cron.add_fn("* * *", Box::new(|| {}));
    assert!(result.is_err());

    // Test expression with invalid characters
    let result = cron.add_fn("@ # $ % ^ & *", Box::new(|| {}));
    assert!(result.is_err());

    // Test expression with out-of-range values
    let result = cron.add_fn("70 * * * * * *", Box::new(|| {}));
    assert!(result.is_err());

    let result = cron.add_fn("* 70 * * * * *", Box::new(|| {}));
    assert!(result.is_err());

    let result = cron.add_fn("* * 25 * * * *", Box::new(|| {}));
    assert!(result.is_err());
}

#[test]
fn test_edge_case_cron_expressions() {
    let mut cron = utc_cron();

    assert!(cron.add_fn("59 59 23 * * *", Box::new(|| {})).is_ok());
    assert!(cron.add_fn("0 0 * 1 1 *", Box::new(|| {})).is_ok());

    assert!(cron.add_fn("0 0 * 29 2 *", Box::new(|| {})).is_ok());

    assert!(cron.add_fn("*/15 0,30 9-17 * * MON-FRI", Box::new(|| {})).is_ok());
    assert!(cron.add_fn("0 0 12 */2 * *", Box::new(|| {})).is_ok());

    assert!(cron.add_fn("* * * * * *", Box::new(|| {})).is_ok());
    assert!(cron.add_fn("* * * * * * *", Box::new(|| {})).is_ok());
}

#[test]
fn test_timezone_edge_cases() {
    let timezones = vec![
        UtcOffset::east_opt(0).unwrap(),
        UtcOffset::east_opt(12 * 3600).unwrap(),
        UtcOffset::west_opt(12 * 3600).unwrap(),
        UtcOffset::east_opt(5 * 3600 + 30 * 60).unwrap(),
    ];

    for tz in timezones {
        let mut cron: Cron<Job> = Cron::new(tz);
        let counter = std::sync::Arc::new(std::sync::Mutex::new(0));
        let counter_clone = std::sync::Arc::clone(&counter);

        let result = cron.add_fn("* * * * * *", Box::new(move || {
            let mut count = counter_clone.lock().unwrap();
            *count += 1;
        }));
        assert!(result.is_ok());
    }
}

#[test]
fn test_job_id_generation() {
    let mut cron = utc_cron();

    let mut job_ids = Vec::new();

    for i in 0..100 {
        let job_id = cron.add_fn("* * * * * *", Box::new(move || {
            println!("Job {}", i);
        })).unwrap();

        assert!(!job_ids.contains(&job_id));
        job_ids.push(job_id);
    }

    for i in 1..job_ids.len() {
        assert!(job_ids[i] > job_ids[i - 1]);
    }
}

#[test]
fn test_remove_nonexistent_job() {
    let mut cron = utc_cron();

    cron.remove(999999);

    let job_id = cron.add_fn("* * * * * *", Box::new(|| {})).unwrap();
    cron.remove(job_id);
    cron.remove(job_id);
    cron.remove(job_id);
}

#[test]
fn test_job_addition_performance() {
    let mut cron = utc_cron();
    let start = std::time::Instant::now();

    for i in 0..1000 {
        cron.add_fn("* * * * * *", Box::new(move || {
            let _ = i;
        })).unwrap();
    }

    let elapsed = start.elapsed();

    assert!(elapsed < std::time::Duration::from_millis(1000),
        "Adding 1000 jobs took too long: {:?}", elapsed);
}

#[test]
fn test_schedule_next_edge_cases() {
    let mut cron = utc_cron();

    let schedules = vec![
        "0 0 0 29 2 * *",
        "59 59 23 31 12 * *",
        "0 0 0 1 1 * 2100",
    ];

    for schedule in schedules {
        if let Ok(job_id) = cron.add_fn(schedule, Box::new(|| {})) {
            cron.remove(job_id);
        }
    }
}

#[test]
fn test_remove_from_stopped_scheduler_sync() {
    let mut cron = utc_cron();

    let job_id = cron.add_fn("* * * * * * *", Box::new(|| {
        println!("Test job");
    })).unwrap();

    cron.remove(job_id);
    cron.remove(job_id);
    cron.remove(9999);
}

// The scheduler's decisions at given instants.

#[test]
fn ids_count_up_from_zero() {
    let mut cron: Cron<u32> = Cron::new(UtcOffset::utc());
    assert_eq!(cron.add_fn_from("* * * * * * *", 10, NEW_YEAR_2024).unwrap(), 0);
    assert_eq!(cron.add_fn_once(NEW_YEAR_2024, 11).unwrap(), 1);
    assert!(cron.add_fn_from("bogus", 12, NEW_YEAR_2024).is_err());
    assert_eq!(cron.add_fn_after_from(Delay::from_secs(1), 13, NEW_YEAR_2024).unwrap(), 2);
}

#[test]
fn recurring_job_first_run_follows_the_expression() {
    let mut cron: Cron<u32> = Cron::new(UtcOffset::utc());
    cron.add_fn_from("0 0 12 * * * *", 1, NEW_YEAR_2024).unwrap();
    // Nothing is due before noon; the wait is the twelve hours to noon.
    assert_eq!(cron.next_wait(NEW_YEAR_2024), 12 * 3_600_000);
    assert!(cron.fire_due(NEW_YEAR_2024).is_empty());
    // At noon the job runs and its next run is noon the day after.
    let noon = NEW_YEAR_2024 + 12 * 3_600_000;
    assert_eq!(cron.fire_due(noon), vec![1]);
    assert_eq!(cron.next_wait(noon), 24 * 3_600_000);
}

#[test]
fn one_time_job_runs_once_and_leaves() {
    let mut cron: Cron<u32> = Cron::new(UtcOffset::utc());
    let at = NEW_YEAR_2024 + 2_000;
    cron.add_fn_once(at, 7).unwrap();
    assert_eq!(cron.next_wait(NEW_YEAR_2024), 2_000);
    assert!(cron.fire_due(NEW_YEAR_2024 + 1_500).is_empty());
    assert_eq!(cron.fire_due(NEW_YEAR_2024 + 2_500), vec![7]);
    assert!(cron.fire_due(NEW_YEAR_2024 + 4_500).is_empty());
    // Without jobs the scheduler waits the longest wait.
    assert_eq!(cron.next_wait(NEW_YEAR_2024 + 4_500), 100_000_000 * 1000);
}

#[test]
fn one_time_job_in_the_past_runs_at_once() {
    let mut cron: Cron<u32> = Cron::new(UtcOffset::utc());
    cron.add_fn_once(NEW_YEAR_2024 - 60_000, 3).unwrap();
    assert_eq!(cron.next_wait(NEW_YEAR_2024), 0);
    assert_eq!(cron.fire_due(NEW_YEAR_2024), vec![3]);
}

#[test]
fn delayed_job_runs_after_the_delay() {
    let mut cron: Cron<u32> = Cron::new(UtcOffset::utc());
    cron.add_fn_after_from(Delay::from_secs(1), 1, NEW_YEAR_2024).unwrap();
    cron.add_fn_after_from(Delay::from_secs(2), 10, NEW_YEAR_2024).unwrap();
    cron.add_fn_after_from(Delay::from_millis(3_000), 100, NEW_YEAR_2024).unwrap();
    assert_eq!(cron.next_wait(NEW_YEAR_2024), 1_000);
    assert_eq!(cron.fire_due(NEW_YEAR_2024 + 1_500), vec![1]);
    assert_eq!(cron.fire_due(NEW_YEAR_2024 + 2_500), vec![10]);
    assert_eq!(cron.fire_due(NEW_YEAR_2024 + 3_500), vec![100]);
    assert!(cron.fire_due(NEW_YEAR_2024 + 4_500).is_empty());
}

#[test]
fn delay_overflowing_the_clock_is_out_of_range() {
    let mut cron: Cron<u32> = Cron::new(UtcOffset::utc());
    // Accepted by chrono, but now + delay passes i64::MAX milliseconds.
    let r = cron.add_fn_after_from(Delay::from_millis(i64::MAX as u64), 1, 1);
    assert!(matches!(r, Err(CronError::DurationOutOfRange)));
    // The largest duration chrono accepts, added to the epoch.
    let r = cron.add_fn_after_from(Delay::new(9_223_372_036_854_775, 807_000_000), 2, 0);
    assert_eq!(r.unwrap(), 0);
    // One nanosecond more is refused.
    let r = cron.add_fn_after_from(Delay::new(9_223_372_036_854_775, 807_000_001), 3, 0);
    assert!(matches!(r, Err(CronError::DurationOutOfRange)));
}

#[test]
fn removed_job_does_not_run() {
    let mut cron: Cron<u32> = Cron::new(UtcOffset::utc());
    let id = cron.add_fn_once(NEW_YEAR_2024 + 2_000, 1).unwrap();
    cron.add_fn_once(NEW_YEAR_2024 + 2_000, 2).unwrap();
    cron.remove(id);
    assert_eq!(cron.fire_due(NEW_YEAR_2024 + 3_000), vec![2]);
}

#[test]
fn mix_of_recurring_and_one_time_jobs() {
    let mut cron: Cron<u32> = Cron::new(UtcOffset::utc());
    cron.add_fn_from("* * * * * * *", 1, NEW_YEAR_2024).unwrap();
    cron.add_fn_after_from(Delay::from_secs(2), 2, NEW_YEAR_2024).unwrap();
    let mut recurring = 0;
    let mut once = 0;
    for step in 1..=3 {
        let now = NEW_YEAR_2024 + step * 1_000 + 500;
        for run in cron.fire_due(now) {
            if run == 1 { recurring += 1 } else { once += 1 }
        }
    }
    assert_eq!(recurring, 3);
    assert_eq!(once, 1);
}

#[test]
fn due_jobs_run_in_order_of_their_run_times() {
    let mut cron: Cron<u32> = Cron::new(UtcOffset::utc());
    cron.add_fn_once(NEW_YEAR_2024 + 300, 3).unwrap();
    cron.add_fn_once(NEW_YEAR_2024 + 100, 1).unwrap();
    cron.add_fn_once(NEW_YEAR_2024 + 200, 2).unwrap();
    cron.add_fn_once(NEW_YEAR_2024 + 100, 4).unwrap();
    assert_eq!(cron.next_wait(NEW_YEAR_2024), 100);
    // Sorted by run time; equal run times keep the order they were added in.
    assert_eq!(cron.fire_due(NEW_YEAR_2024 + 1_000), vec![1, 4, 2, 3]);
}

#[test]
fn schedule_without_fire_time_never_runs_and_does_not_block() {
    let mut cron: Cron<u32> = Cron::new(UtcOffset::utc());
    cron.add_fn_from("0 0 0 30 2 * *", 1, NEW_YEAR_2024).unwrap();
    cron.initialize_next_times(NEW_YEAR_2024);
    assert_eq!(cron.next_wait(NEW_YEAR_2024), 100_000_000 * 1000);
    assert!(cron.fire_due(NEW_YEAR_2024 + 10_000_000).is_empty());
    cron.add_fn_once(NEW_YEAR_2024 + 5, 2).unwrap();
    assert_eq!(cron.next_wait(NEW_YEAR_2024), 5);
}

#[test]
fn new_timezone_applies_to_next_runs() {
    let mut cron: Cron<u32> = Cron::new(UtcOffset::utc());
    cron.add_fn_from("0 0 12 * * * *", 1, NEW_YEAR_2024).unwrap();
    cron.add_fn_once(NEW_YEAR_2024 + 5 * 3_600_000, 2).unwrap();
    assert_eq!(cron.next_wait(NEW_YEAR_2024), 5 * 3_600_000);
    // Switching to Tokyo moves the recurring job to noon in Tokyo, 03:00 UTC;
    // the one-time job keeps its instant.
    cron.set_timezone_at(UtcOffset::east_opt(9 * 3600).unwrap(), NEW_YEAR_2024);
    assert_eq!(cron.next_wait(NEW_YEAR_2024), 3 * 3_600_000);
    assert_eq!(cron.fire_due(NEW_YEAR_2024 + 3 * 3_600_000), vec![1]);
    assert_eq!(cron.fire_due(NEW_YEAR_2024 + 5 * 3_600_000), vec![2]);
    // The next run is noon in Tokyo the day after.
    assert_eq!(cron.next_wait(NEW_YEAR_2024 + 5 * 3_600_000), 22 * 3_600_000);
}

#[test]
fn set_timezone_keeps_jobs_running() {
    let mut cron: Cron<u32> = Cron::new(UtcOffset::east_opt(0).unwrap());
    cron.add_fn("* * * * * * *", 1).unwrap();
    cron.set_timezone(UtcOffset::east_opt(9 * 3600).unwrap());
    let now = chrono::Utc::now().timestamp_millis();
    // The job still runs every second in the new zone.
    assert!(cron.next_wait(now) <= 1_000);
    assert_eq!(cron.fire_due(now + 1_000), vec![1]);
}

#[test]
fn following_a_changing_offset() {
    let mut cron: Cron<u32> = Cron::new(UtcOffset::utc());
    cron.add_fn_from("0 0 12 * * * *", 1, NEW_YEAR_2024).unwrap();
    // The same offset changes nothing.
    cron.follow_offset_at(UtcOffset::utc(), NEW_YEAR_2024);
    assert_eq!(cron.next_wait(NEW_YEAR_2024), 12 * 3_600_000);
    // An hour east: noon local is 11:00 UTC.
    cron.follow_offset_at(UtcOffset::east_opt(3600).unwrap(), NEW_YEAR_2024);
    assert_eq!(cron.next_wait(NEW_YEAR_2024), 11 * 3_600_000);
    assert_eq!(cron.jobs().len(), 1);
}

#[test]
fn job_without_run_time_never_runs_and_stays() {
    let mut cron: Cron<u32> = Cron::new(UtcOffset::utc());
    let never = cron.add_fn_from("0 0 0 30 2 * *", 1, NEW_YEAR_2024).unwrap();
    cron.add_fn_from("* * * * * * *", 2, NEW_YEAR_2024).unwrap();
    for step in 1..=3 {
        assert_eq!(cron.fire_due(NEW_YEAR_2024 + step * 1_000), vec![2]);
    }
    assert_eq!(cron.jobs()[0].id, never);
    assert_eq!(cron.jobs()[0].next, None);
    // Removing and adding still work.
    cron.remove(never);
    assert_eq!(cron.add_fn_once(NEW_YEAR_2024, 3).unwrap(), 2);
}

#[test]
fn no_job_runs_before_its_time() {
    let mut cron: Cron<u32> = Cron::new(UtcOffset::utc());
    cron.add_fn_once(NEW_YEAR_2024 + 1_000, 1).unwrap();
    cron.add_fn_once(NEW_YEAR_2024 + 999, 2).unwrap();
    assert_eq!(cron.fire_due(NEW_YEAR_2024 + 999), vec![2]);
    assert_eq!(cron.fire_due(NEW_YEAR_2024 + 1_000), vec![1]);
}

#[test]
fn firing_twice_at_one_instant_runs_nothing_more() {
    let mut cron: Cron<u32> = Cron::new(UtcOffset::utc());
    cron.add_fn_from("* * * * * * *", 1, NEW_YEAR_2024).unwrap();
    cron.add_fn_once(NEW_YEAR_2024, 2).unwrap();
    let now = NEW_YEAR_2024 + 1_000;
    assert_eq!(cron.fire_due(now), vec![1, 2]);
    assert!(cron.fire_due(now).is_empty());
}

#[test]
fn sub_millisecond_delay_is_rounded_up() {
    let mut cron: Cron<u32> = Cron::new(UtcOffset::utc());
    // 1.0005 s after the epoch: the first whole millisecond not earlier is 1001.
    cron.add_fn_after_from(Delay::new(1, 500_000), 1, 0).unwrap();
    assert_eq!(cron.next_wait(0), 1_001);
    assert!(cron.fire_due(1_000).is_empty());
    assert_eq!(cron.fire_due(1_001), vec![1]);
}

#[test]
fn whole_millisecond_delay_is_kept_exactly() {
    let mut cron: Cron<u32> = Cron::new(UtcOffset::utc());
    cron.add_fn_after_from(Delay::new(0, 2_000_000), 1, NEW_YEAR_2024).unwrap();
    assert_eq!(cron.next_wait(NEW_YEAR_2024), 2);
    assert!(cron.fire_due(NEW_YEAR_2024 + 1).is_empty());
    assert_eq!(cron.fire_due(NEW_YEAR_2024 + 2), vec![1]);
}

#[test]
fn refused_delay_leaves_the_next_one_possible() {
    let mut cron: Cron<u32> = Cron::new(UtcOffset::utc());
    let r = cron.add_fn_after(Delay::from_secs(u64::MAX), 1);
    assert!(matches!(r, Err(CronError::DurationOutOfRange)));
    assert!(cron.jobs().is_empty());
    assert_eq!(cron.add_fn_after(Delay::from_secs(10), 2).unwrap(), 0);
}

#[test]
fn capped_wait_is_at_most_a_minute() {
    let mut cron: Cron<u32> = Cron::new(UtcOffset::utc());
    assert_eq!(cron.next_wait_capped(NEW_YEAR_2024), 60_000);
    cron.add_fn_once(NEW_YEAR_2024 + 3_600_000, 1).unwrap();
    assert_eq!(cron.next_wait_capped(NEW_YEAR_2024), 60_000);
    cron.add_fn_once(NEW_YEAR_2024 + 2_000, 2).unwrap();
    assert_eq!(cron.next_wait_capped(NEW_YEAR_2024), 2_000);
    assert_eq!(cron.next_wait_capped(NEW_YEAR_2024 + 5_000), 0);
}

#[test]
fn ids_strictly_increase_across_all_kinds_of_add() {
    let mut cron: Cron<u32> = Cron::new(UtcOffset::utc());
    let mut ids = Vec::new();
    ids.push(cron.add_fn_from("* * * * * * *", 1, NEW_YEAR_2024).unwrap());
    assert!(cron.add_fn_after_from(Delay::from_secs(u64::MAX), 2, NEW_YEAR_2024).is_err());
    ids.push(cron.add_fn_once(NEW_YEAR_2024, 3).unwrap());
    cron.remove(ids[0]);
    ids.push(cron.add_fn_after_from(Delay::from_secs(5), 4, NEW_YEAR_2024).unwrap());
    cron.fire_due(NEW_YEAR_2024 + 10_000);
    ids.push(cron.add_fn_from("0 * * * * * *", 5, NEW_YEAR_2024).unwrap());
    assert_eq!(ids, vec![0, 1, 2, 3]);
}
