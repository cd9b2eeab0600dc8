use chrono::{DateTime, FixedOffset, Utc};
use photo_manifest::timestamp::{
    Timestamp, MAX_SECONDS, MIN_SECONDS, NANOS_PER_SECOND, SECONDS_PER_DAY,
};

#[test]
fn new_keeps_the_three_numbers() {
    let t = Timestamp::new(1_641_027_600, 5, 3600).unwrap();
    assert_eq!(t.seconds(), 1_641_027_600);
    assert_eq!(t.nanos(), 5);
    assert_eq!(t.offset(), 3600);
}

#[test]
fn bounds_are_those_of_the_calendar() {
    assert_eq!(DateTime::<Utc>::MIN_UTC.timestamp(), MIN_SECONDS);
    assert_eq!(DateTime::<Utc>::MAX_UTC.timestamp(), MAX_SECONDS);
    assert!(DateTime::from_timestamp(MIN_SECONDS, 0).is_some());
    assert!(DateTime::from_timestamp(MIN_SECONDS - 1, 0).is_none());
    assert!(DateTime::from_timestamp(MAX_SECONDS, 999_999_999).is_some());
    assert!(DateTime::from_timestamp(MAX_SECONDS + 1, 0).is_none());
}

#[test]
fn new_refuses_seconds_outside_the_calendar() {
    assert!(Timestamp::new(MIN_SECONDS, 0, 0).is_some());
    assert!(Timestamp::new(MIN_SECONDS - 1, 0, 0).is_none());
    assert!(Timestamp::new(MAX_SECONDS, 0, 0).is_some());
    assert!(Timestamp::new(MAX_SECONDS + 1, 0, 0).is_none());
    assert!(Timestamp::new(i64::MIN, 0, 0).is_none());
    assert!(Timestamp::new(i64::MAX, 0, 0).is_none());
}

#[test]
fn new_takes_a_leap_second_only_at_the_end_of_a_minute() {
    assert!(Timestamp::new(59, NANOS_PER_SECOND, 0).is_some());
    assert!(Timestamp::new(59, 2 * NANOS_PER_SECOND - 1, 0).is_some());
    assert!(Timestamp::new(59, 2 * NANOS_PER_SECOND, 0).is_none());
    assert!(Timestamp::new(58, NANOS_PER_SECOND, 0).is_none());
    assert!(Timestamp::new(0, NANOS_PER_SECOND, 0).is_none());
    assert!(Timestamp::new(-1, NANOS_PER_SECOND, 0).is_some());
    assert!(Timestamp::new(-2, NANOS_PER_SECOND, 0).is_none());
    assert!(Timestamp::new(MAX_SECONDS, NANOS_PER_SECOND, 0).is_some());
    assert!(Timestamp::new(0, NANOS_PER_SECOND - 1, 0).is_some());
    assert!(Timestamp::new(0, u32::MAX, 0).is_none());
}

#[test]
fn new_agrees_with_chrono_on_leap_seconds() {
    for seconds in -130i64..130 {
        for nanos in [0u32, 999_999_999, 1_000_000_000, 1_999_999_999, 2_000_000_000] {
            assert_eq!(
                Timestamp::new(seconds, nanos, 0).is_some(),
                DateTime::from_timestamp(seconds, nanos).is_some(),
                "{seconds} {nanos}"
            );
        }
    }
}

#[test]
fn new_refuses_an_offset_of_a_day_or_more() {
    assert!(Timestamp::new(0, 0, SECONDS_PER_DAY - 1).is_some());
    assert!(Timestamp::new(0, 0, SECONDS_PER_DAY).is_none());
    assert!(Timestamp::new(0, 0, -SECONDS_PER_DAY + 1).is_some());
    assert!(Timestamp::new(0, 0, -SECONDS_PER_DAY).is_none());
    assert!(Timestamp::new(0, 0, i32::MIN).is_none());
    assert!(Timestamp::new(0, 0, i32::MAX).is_none());
    assert!(FixedOffset::east_opt(SECONDS_PER_DAY - 1).is_some());
    assert!(FixedOffset::east_opt(SECONDS_PER_DAY).is_none());
}

#[test]
fn earlier_moment_is_before() {
    let a = Timestamp::new(10, 0, 0).unwrap();
    let b = Timestamp::new(11, 0, 0).unwrap();
    assert!(a.is_before(&b));
    assert!(!b.is_before(&a));
    assert!(!a.is_before(&a));
}

#[test]
fn nanoseconds_decide_within_a_second() {
    let a = Timestamp::new(10, 1, 0).unwrap();
    let b = Timestamp::new(10, 2, 0).unwrap();
    assert!(a.is_before(&b));
    assert!(!b.is_before(&a));
    assert!(!a.is_same_moment(&b));
}

#[test]
fn offsets_play_no_part_in_the_order() {
    let a = Timestamp::new(10, 0, 7200).unwrap();
    let b = Timestamp::new(10, 0, -3600).unwrap();
    assert!(a.is_same_moment(&b));
    assert!(!a.is_before(&b));
    assert!(!b.is_before(&a));
    let c = Timestamp::new(9, 0, 86_399).unwrap();
    assert!(c.is_before(&b));
}

#[test]
fn order_is_that_of_chrono() {
    let parts = [
        (-61i64, 0u32, 0i32),
        (-1, 999_999_999, 3600),
        (-1, 1_500_000_000, -3600),
        (0, 0, 0),
        (0, 0, 5400),
        (0, 1, -5400),
        (59, 1_000_000_000, 0),
        (60, 0, 0),
    ];
    for a in parts {
        for b in parts {
            let ours_a = Timestamp::new(a.0, a.1, a.2).unwrap();
            let ours_b = Timestamp::new(b.0, b.1, b.2).unwrap();
            let theirs_a = DateTime::from_timestamp(a.0, a.1)
                .unwrap()
                .with_timezone(&FixedOffset::east_opt(a.2).unwrap());
            let theirs_b = DateTime::from_timestamp(b.0, b.1)
                .unwrap()
                .with_timezone(&FixedOffset::east_opt(b.2).unwrap());
            assert_eq!(ours_a.is_before(&ours_b), theirs_a < theirs_b);
            assert_eq!(ours_a.is_same_moment(&ours_b), theirs_a == theirs_b);
        }
    }
}

#[test]
fn with_offset_keeps_the_moment() {
    let a = Timestamp::new(1_641_027_600, 7, 0).unwrap();
    let b = a.with_offset(-18_000).unwrap();
    assert_eq!(b.seconds(), 1_641_027_600);
    assert_eq!(b.nanos(), 7);
    assert_eq!(b.offset(), -18_000);
    assert!(a.with_offset(86_400).is_none());
    assert!(a.with_offset(-86_400).is_none());
}

#[test]
fn local_zone_keeps_the_moment() {
    let a = Timestamp::new(1_641_027_600, 7, 0).unwrap();
    let local = a.in_local_zone();
    assert!(local.is_same_moment(&a));
    assert!(-86_400 < local.offset() && local.offset() < 86_400);
    let chrono_local = DateTime::from_timestamp(1_641_027_600, 7)
        .unwrap()
        .with_timezone(&chrono::Local);
    assert_eq!(local.offset(), chrono_local.offset().local_minus_utc());
}

#[test]
fn format_gives_date_and_time_of_day() {
    let t = Timestamp::new(1_641_027_600, 0, 0).unwrap();
    assert_eq!(t.format(), "2022-01-01 09:00:00");
}

#[test]
fn format_drops_fractions_of_a_second() {
    let t = Timestamp::new(1_641_027_600, 999_999_999, 0).unwrap();
    assert_eq!(t.format(), "2022-01-01 09:00:00");
}

#[test]
fn format_shows_the_time_at_the_offset() {
    let t = Timestamp::new(1_641_027_600, 0, 3600).unwrap();
    assert_eq!(t.format(), "2022-01-01 10:00:00");
    let t = Timestamp::new(1_641_027_600, 0, -34_200).unwrap();
    assert_eq!(t.format(), "2021-12-31 23:30:00");
}

#[test]
fn format_shows_a_leap_second_as_sixty() {
    let t = Timestamp::new(1_483_228_799, 1_000_000_000, 0).unwrap();
    assert_eq!(t.format(), "2016-12-31 23:59:60");
}

#[test]
fn format_reaches_both_ends_of_the_calendar() {
    let first = Timestamp::new(MIN_SECONDS, 0, 0).unwrap();
    assert_eq!(first.format(), "-262143-01-01 00:00:00");
    let last = Timestamp::new(MAX_SECONDS, 0, 0).unwrap();
    assert_eq!(last.format(), "+262142-12-31 23:59:59");
    let before = Timestamp::new(MIN_SECONDS, 0, -86_399).unwrap();
    assert!(!before.format().is_empty());
    let after = Timestamp::new(MAX_SECONDS, 1_999_999_999, 86_399).unwrap();
    assert!(!after.format().is_empty());
}

#[test]
fn format_is_what_chrono_prints() {
    for (seconds, nanos, offset) in [
        (0i64, 0u32, 0i32),
        (951_782_400, 0, 0),
        (-1, 0, 0),
        (1_700_000_000, 123, 19_800),
        (-62_135_596_800, 0, 0),
        (253_402_300_799, 0, 0),
    ] {
        let ours = Timestamp::new(seconds, nanos, offset).unwrap().format();
        let theirs = DateTime::from_timestamp(seconds, nanos)
            .unwrap()
            .with_timezone(&FixedOffset::east_opt(offset).unwrap())
            .format("%F %T")
            .to_string();
        assert_eq!(ours, theirs);
    }
    assert_eq!(Timestamp::new(951_782_400, 0, 0).unwrap().format(), "2000-02-29 00:00:00");
    assert_eq!(Timestamp::new(0, 0, 0).unwrap().format(), "1970-01-01 00:00:00");
}
