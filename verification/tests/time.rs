use cron_tab::{Delay, UtcOffset};

#[test]
fn offsets_within_a_day() {
    assert_eq!(UtcOffset::utc().local_minus_utc(), 0);
    assert_eq!(UtcOffset::east_opt(9 * 3600).unwrap().local_minus_utc(), 32_400);
    assert_eq!(UtcOffset::west_opt(5 * 3600).unwrap().local_minus_utc(), -18_000);
    assert_eq!(UtcOffset::east_opt(5 * 3600 + 30 * 60).unwrap().local_minus_utc(), 19_800);
    assert!(UtcOffset::east_opt(86_400).is_none());
    assert!(UtcOffset::west_opt(86_400).is_none());
    assert!(UtcOffset::east_opt(-86_400).is_none());
    assert!(UtcOffset::east_opt(86_399).is_some());
}

#[test]
fn delays_in_seconds_and_nanoseconds() {
    let d = Delay::new(1, 2_500_000_000);
    assert_eq!(d.as_secs(), 3);
    assert_eq!(d.subsec_nanos(), 500_000_000);
    let d = Delay::from_millis(2_345);
    assert_eq!(d.as_secs(), 2);
    assert_eq!(d.subsec_nanos(), 345_000_000);
    let d = Delay::from_secs(30);
    assert_eq!(d.as_secs(), 30);
    assert_eq!(d.subsec_nanos(), 0);
}
