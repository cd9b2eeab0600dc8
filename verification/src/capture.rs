//! The capture time that a file carries in its embedded metadata.

use vstd::prelude::*;

use crate::timestamp::{representable, Moment, Timestamp, MAX_SECONDS, MIN_SECONDS, SECONDS_PER_DAY};

verus! {

/// How far the search for a capture time in an opened file got.
#[derive(Clone, Copy, Debug, PartialEq, Eq)]
pub enum CaptureTag {
    /// The content could not be decoded.
    Undecodable,
    /// The content was decoded and holds no metadata container.
    NoMetadata,
    /// The metadata holds no tag for the time of capture.
    Absent,
    /// The tag is there, and its value is no date and time.
    NotATime,
    /// The tag names this moment, offset included.
    Time {
        /// Whole seconds since 1970-01-01T00:00:00Z.
        seconds: i64,
        /// Nanoseconds into that second.
        nanos: u32,
        /// Seconds that the camera's clock was ahead of UTC.
        offset: i32,
    },
    /// The tag names a date and a time of day, and no offset.
    LocalTime {
        /// Whole seconds from 1970-01-01T00:00:00 to that date and time of
        /// day, every day counted as 86 400 seconds.
        seconds: i64,
        /// Nanoseconds into that second.
        nanos: u32,
        /// Seconds that the clocks of the local zone are ahead of UTC when
        /// they show that date and time, where they show it exactly once.
        zone: Option<i32>,
    },
}

/// The moment that a tag yields.
///
/// A time with its offset is that moment. A time without offset is read off
/// the clocks of the local zone, where they show it exactly once. Either
/// counts only where it is a moment of the calendar, and every other outcome
/// of the search yields none.
pub open spec fn tag_moment(tag: CaptureTag) -> Option<Moment> {
    match tag {
        CaptureTag::Time { seconds, nanos, offset } => moment_of(
            seconds as int,
            nanos as int,
            offset as int,
        ),
        CaptureTag::LocalTime { seconds, nanos, zone: Some(offset) } => moment_of(
            seconds - offset,
            nanos as int,
            offset as int,
        ),
        _ => None,
    }
}

/// The moment of the three numbers, if they denote a moment of the calendar.
pub open spec fn moment_of(seconds: int, nanos: int, offset: int) -> Option<Moment> {
    if representable(seconds, nanos, offset) {
        Some(Moment { seconds, nanos, offset })
    } else {
        None
    }
}

/// The capture moment embedded in a file that could be opened, with what the
/// search in it came to, or could not (`None`).
pub open spec fn embedded_moment(capture: Option<CaptureTag>) -> Option<Moment> {
    match capture {
        Some(tag) => tag_moment(tag),
        None => None,
    }
}

/// The timestamp that a tag yields, if it yields one.
pub fn tag_timestamp(tag: CaptureTag) -> (found: Option<Timestamp>)
    ensures
        found is Some <==> tag_moment(tag) is Some,
        found matches Some(t) ==> tag_moment(tag) == Some(t@),
{
    match tag {
        CaptureTag::Time { seconds, nanos, offset } => Timestamp::new(seconds, nanos, offset),
        CaptureTag::LocalTime { seconds, nanos, zone: Some(offset) } => {
            if offset <= -SECONDS_PER_DAY || offset >= SECONDS_PER_DAY {
                return None;
            }
            if seconds < MIN_SECONDS - 86_400 || seconds > MAX_SECONDS + 86_400 {
                return None;
            }
            Timestamp::new(seconds - offset as i64, nanos, offset)
        },
        _ => None,
    }
}

/// The capture time embedded in a file, given what the search in it came to
/// if it could be opened. Every way of not finding one gives `None`.
pub fn embedded_timestamp(capture: Option<CaptureTag>) -> (found: Option<Timestamp>)
    ensures
        found is Some <==> embedded_moment(capture) is Some,
        found matches Some(t) ==> embedded_moment(capture) == Some(t@),
{
    match capture {
        Some(tag) => tag_timestamp(tag),
        None => None,
    }
}

} // verus!
