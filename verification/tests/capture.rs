use chrono::{FixedOffset, NaiveDate, TimeZone};
use photo_manifest::capture::{embedded_timestamp, tag_timestamp, CaptureTag};
use photo_manifest::timestamp::{MAX_SECONDS, MIN_SECONDS};

fn parts(tag: CaptureTag) -> Option<(i64, u32, i32)> {
    tag_timestamp(tag).map(|t| (t.seconds(), t.nanos(), t.offset()))
}

#[test]
fn a_search_that_found_no_time_yields_no_timestamp() {
    assert!(tag_timestamp(CaptureTag::Undecodable).is_none());
    assert!(tag_timestamp(CaptureTag::NoMetadata).is_none());
    assert!(tag_timestamp(CaptureTag::Absent).is_none());
    assert!(tag_timestamp(CaptureTag::NotATime).is_none());
}

#[test]
fn a_time_with_offset_is_that_moment() {
    assert_eq!(parts(CaptureTag::Time { seconds: 12, nanos: 34, offset: 56 }), Some((12, 34, 56)));
    assert_eq!(
        parts(CaptureTag::Time { seconds: 1_641_024_000, nanos: 0, offset: 7200 }),
        Some((1_641_024_000, 0, 7200))
    );
}

#[test]
fn a_time_outside_the_calendar_yields_none() {
    assert!(tag_timestamp(CaptureTag::Time { seconds: i64::MAX, nanos: 0, offset: 0 }).is_none());
    assert!(tag_timestamp(CaptureTag::Time { seconds: 0, nanos: 0, offset: 86_400 }).is_none());
    assert!(
        tag_timestamp(CaptureTag::Time { seconds: 0, nanos: 1_000_000_000, offset: 0 }).is_none()
    );
}

#[test]
fn a_time_without_offset_is_read_off_the_local_clocks() {
    let tag = CaptureTag::LocalTime { seconds: 1_641_031_200, nanos: 5, zone: Some(3600) };
    assert_eq!(parts(tag), Some((1_641_027_600, 5, 3600)));
    let tag = CaptureTag::LocalTime { seconds: 1_641_031_200, nanos: 0, zone: Some(-18_000) };
    assert_eq!(parts(tag), Some((1_641_049_200, 0, -18_000)));
    let tag = CaptureTag::LocalTime { seconds: 1_641_031_200, nanos: 0, zone: Some(0) };
    assert_eq!(tag_timestamp(tag).unwrap().format(), "2022-01-01 10:00:00");
}

#[test]
fn a_time_without_offset_keeps_its_date_and_time_of_day() {
    for zone in [-43_200, -1, 0, 1, 3600, 20_700, 50_400] {
        let tag = CaptureTag::LocalTime { seconds: 1_688_934_993, nanos: 0, zone: Some(zone) };
        assert_eq!(tag_timestamp(tag).unwrap().format(), "2023-07-09 20:36:33");
    }
}

#[test]
fn a_time_without_offset_is_the_moment_chrono_gives() {
    let wall = NaiveDate::from_ymd_opt(2001, 2, 3).unwrap().and_hms_opt(4, 5, 6).unwrap();
    let zone = FixedOffset::east_opt(-28_800).unwrap();
    let theirs = zone.from_local_datetime(&wall).unwrap();
    let tag = CaptureTag::LocalTime {
        seconds: wall.and_utc().timestamp(),
        nanos: 0,
        zone: Some(-28_800),
    };
    assert_eq!(parts(tag), Some((theirs.timestamp(), 0, -28_800)));
}

#[test]
fn a_time_that_the_local_clocks_never_show_or_show_twice_yields_none() {
    let tag = CaptureTag::LocalTime { seconds: 1_641_031_200, nanos: 0, zone: None };
    assert!(tag_timestamp(tag).is_none());
}

#[test]
fn a_time_without_offset_outside_the_calendar_yields_none() {
    let none = |seconds, nanos, zone| {
        tag_timestamp(CaptureTag::LocalTime { seconds, nanos, zone: Some(zone) }).is_none()
    };
    assert!(none(0, 0, 86_400));
    assert!(none(0, 0, -86_400));
    assert!(none(0, 0, i32::MIN));
    assert!(none(i64::MIN, 0, 0));
    assert!(none(i64::MAX, 0, 0));
    assert!(none(i64::MIN, 0, 86_399));
    assert!(none(i64::MAX, 0, -86_399));
    assert!(none(MIN_SECONDS, 0, 1));
    assert!(none(MAX_SECONDS, 0, -1));
    assert!(!none(MIN_SECONDS, 0, 0));
    assert!(!none(MIN_SECONDS - 1, 0, -1));
    assert!(!none(MAX_SECONDS + 86_399, 0, 86_399));
    assert!(none(MAX_SECONDS + 86_400, 0, 86_399));
    assert!(none(0, 2_000_000_000, 0));
    assert!(none(59, 1_000_000_000, 1));
    assert!(!none(59, 1_000_000_000, 60));
}

#[test]
fn a_file_that_could_not_be_opened_has_no_embedded_timestamp() {
    assert!(embedded_timestamp(None).is_none());
}

#[test]
fn a_file_without_capture_time_has_no_embedded_timestamp() {
    assert!(embedded_timestamp(Some(CaptureTag::Undecodable)).is_none());
    assert!(embedded_timestamp(Some(CaptureTag::Absent)).is_none());
    assert!(embedded_timestamp(Some(CaptureTag::NotATime)).is_none());
}

#[test]
fn embedded_timestamp_is_the_capture_time() {
    let tag = CaptureTag::Time { seconds: 1_641_027_600, nanos: 0, offset: 3600 };
    let found = embedded_timestamp(Some(tag)).unwrap();
    assert_eq!((found.seconds(), found.nanos(), found.offset()), (1_641_027_600, 0, 3600));
    assert_eq!(found.format(), "2022-01-01 10:00:00");
}
