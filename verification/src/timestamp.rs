//! Points in time with a UTC offset, as plain integers.

use vstd::prelude::*;

verus! {

/// The first second the calendar reaches: midnight before 1 January of the
/// year -262143, counted from 1970-01-01T00:00:00Z.
pub const MIN_SECONDS: i64 = -8_334_601_228_800;

/// The last second the calendar reaches: 23:59:59 on 31 December 262142.
pub const MAX_SECONDS: i64 = 8_210_266_876_799;

/// Nanoseconds in one second. A nanosecond count from here up to twice this
/// stands for a leap second.
pub const NANOS_PER_SECOND: u32 = 1_000_000_000;

/// Seconds in one day: a UTC offset stays strictly below this on both sides.
pub const SECONDS_PER_DAY: i32 = 86_400;

/// A moment and the offset of the clock that recorded it.
#[verifier::ext_equal]
pub struct Moment {
    /// Whole seconds since 1970-01-01T00:00:00Z, leap seconds not counted.
    pub seconds: int,
    /// Nanoseconds into that second; a leap second counts on from one billion.
    pub nanos: int,
    /// Seconds that the recording clock is ahead of UTC.
    pub offset: int,
}

/// Whether the three numbers denote a moment of the calendar.
pub open spec fn representable(seconds: int, nanos: int, offset: int) -> bool {
    &&& MIN_SECONDS <= seconds <= MAX_SECONDS
    &&& 0 <= nanos < 2 * NANOS_PER_SECOND
    &&& nanos >= NANOS_PER_SECOND ==> seconds % 60 == 59
    &&& -SECONDS_PER_DAY < offset < SECONDS_PER_DAY
}

/// Whether `a` lies strictly before `b` on the time line. Offsets play no part.
pub open spec fn earlier(a: Moment, b: Moment) -> bool {
    a.seconds < b.seconds || (a.seconds == b.seconds && a.nanos < b.nanos)
}

/// Whether `a` and `b` are the same point of the time line.
pub open spec fn simultaneous(a: Moment, b: Moment) -> bool {
    a.seconds == b.seconds && a.nanos == b.nanos
}

/// A point in time together with a UTC offset.
#[derive(Clone, Copy, Debug)]
pub struct Timestamp {
    seconds: i64,
    nanos: u32,
    offset: i32,
}

impl View for Timestamp {
    type V = Moment;

    closed spec fn view(&self) -> Moment {
        Moment { seconds: self.seconds as int, nanos: self.nanos as int, offset: self.offset as int }
    }
}

impl Timestamp {
    /// Every timestamp denotes a moment of the calendar.
    #[verifier::type_invariant]
    spec fn inv(self) -> bool {
        representable(self.seconds as int, self.nanos as int, self.offset as int)
    }

    /// The timestamp of the given numbers, if they denote a moment of the calendar.
    pub fn new(seconds: i64, nanos: u32, offset: i32) -> (made: Option<Timestamp>)
        ensures
            made is Some <==> representable(seconds as int, nanos as int, offset as int),
            made matches Some(t) ==> t@ == (Moment {
                seconds: seconds as int,
                nanos: nanos as int,
                offset: offset as int,
            }),
    {
        if seconds < MIN_SECONDS || seconds > MAX_SECONDS {
            return None;
        }
        if nanos >= 2 * NANOS_PER_SECOND {
            return None;
        }
        // The first second of the calendar starts a minute, so counting from
        // it keeps the remainder and avoids a negative dividend.
        if nanos >= NANOS_PER_SECOND && (seconds - MIN_SECONDS) % 60 != 59 {
            return None;
        }
        if offset <= -SECONDS_PER_DAY || offset >= SECONDS_PER_DAY {
            return None;
        }
        Some(Timestamp { seconds, nanos, offset })
    }

    /// Whole seconds since 1970-01-01T00:00:00Z.
    pub fn seconds(&self) -> (seconds: i64)
        ensures
            seconds == self@.seconds,
    {
        self.seconds
    }

    /// Nanoseconds into the second.
    pub fn nanos(&self) -> (nanos: u32)
        ensures
            nanos == self@.nanos,
    {
        self.nanos
    }

    /// Seconds that the recording clock is ahead of UTC.
    pub fn offset(&self) -> (offset: i32)
        ensures
            offset == self@.offset,
    {
        self.offset
    }

    /// Whether this moment lies strictly before the other one.
    pub fn is_before(&self, other: &Timestamp) -> (before: bool)
        ensures
            before == earlier(self@, other@),
    {
        self.seconds < other.seconds || (self.seconds == other.seconds && self.nanos < other.nanos)
    }

    /// Whether both are the same moment, whatever their offsets.
    pub fn is_same_moment(&self, other: &Timestamp) -> (same: bool)
        ensures
            same == simultaneous(self@, other@),
    {
        self.seconds == other.seconds && self.nanos == other.nanos
    }

    /// The same moment read off a clock that is `offset` seconds ahead of UTC,
    /// if there is such a clock.
    pub fn with_offset(&self, offset: i32) -> (moved: Option<Timestamp>)
        ensures
            moved is Some <==> -SECONDS_PER_DAY < offset < SECONDS_PER_DAY,
            moved matches Some(t) ==> t@ == (Moment { offset: offset as int, ..self@ }),
    {
        proof {
            use_type_invariant(self);
        }
        if offset <= -SECONDS_PER_DAY || offset >= SECONDS_PER_DAY {
            return None;
        }
        Some(Timestamp { seconds: self.seconds, nanos: self.nanos, offset })
    }

    /// The same moment read off the clock of this machine's time zone.
    ///
    /// Which offset that zone has at the moment is the machine's affair, so
    /// only the moment is promised; [`Timestamp::with_offset`] says what the
    /// result is for each offset.
    pub fn in_local_zone(&self) -> (local: Timestamp)
        ensures
            simultaneous(local@, self@),
            representable(local@.seconds, local@.nanos, local@.offset),
    {
        proof {
            use_type_invariant(self);
        }
        let offset = local_offset(self.seconds, self.nanos);
        match self.with_offset(offset) {
            Some(local) => local,
            None => *self,
        }
    }

    /// The local date and time of day as `YYYY-MM-DD HH:MM:SS`.
    pub fn format(&self) -> (text: String)
        ensures
            text@ == formatted_time(self@.seconds, self@.nanos, self@.offset),
    {
        proof {
            use_type_invariant(self);
        }
        format_parts(self.seconds, self.nanos, self.offset)
    }
}

/// What chrono prints for the moment `seconds`, `nanos` on a clock `offset`
/// seconds ahead of UTC under the pattern `%F %T`.
pub uninterp spec fn formatted_time(seconds: int, nanos: int, offset: int) -> Seq<char>;

/// Calls chrono's `DateTime::from_timestamp`, `FixedOffset::east_opt`,
/// `DateTime::with_timezone` and `DateTime::format` with the pattern `%F %T`.
///
/// Trusted: the text is a function of the three numbers alone. The numbers
/// admitted are those for which the two constructors return a value.
#[verifier::external_body]
fn format_parts(seconds: i64, nanos: u32, offset: i32) -> (text: String)
    requires
        representable(seconds as int, nanos as int, offset as int),
    ensures
        text@ == formatted_time(seconds as int, nanos as int, offset as int),
{
    let zone = chrono::FixedOffset::east_opt(offset).unwrap();
    let utc = chrono::DateTime::from_timestamp(seconds, nanos).unwrap();
    utc.with_timezone(&zone).format("%F %T").to_string()
}

/// Calls chrono's `DateTime::from_timestamp`, `DateTime::with_timezone` for
/// `Local` and `FixedOffset::local_minus_utc`.
///
/// Trusted: chrono finds the offset that the machine's zone has at the
/// moment, and it stays within a day on either side. Nothing else is
/// claimed, since the zone is read from the machine at the time of the call.
#[verifier::external_body]
fn local_offset(seconds: i64, nanos: u32) -> (offset: i32)
    requires
        representable(seconds as int, nanos as int, 0),
    ensures
        -SECONDS_PER_DAY < offset < SECONDS_PER_DAY,
{
    let utc = chrono::DateTime::from_timestamp(seconds, nanos).unwrap();
    utc.with_timezone(&chrono::Local).offset().local_minus_utc()
}

} // verus!
