//! Points in time and spans of time.

use vstd::prelude::*;

verus! {

/// A point in time: whole seconds since the start of 1970 in UTC, and nanoseconds on top.
#[derive(Debug, Clone, Copy, PartialEq, Eq, PartialOrd, Ord, Hash, Structural)]
pub struct Timestamp {
    pub secs: i64,
    pub nanos: u32,
}

impl View for Timestamp {
    type V = Timestamp;

    open spec fn view(&self) -> Timestamp {
        *self
    }
}

impl Timestamp {
    /// This point is before the other.
    pub open spec fn before(self, other: Timestamp) -> bool {
        self.secs < other.secs || (self.secs == other.secs && self.nanos < other.nanos)
    }

    /// Whether this point is before the other.
    pub fn is_before(&self, other: &Timestamp) -> (result: bool)
        ensures
            result == self.before(*other),
    {
        self.secs < other.secs || (self.secs == other.secs && self.nanos < other.nanos)
    }

    /// The start of 1970 in UTC.
    pub fn epoch() -> (result: Timestamp)
        ensures
            result == (Timestamp { secs: 0, nanos: 0 }),
    {
        Timestamp { secs: 0, nanos: 0 }
    }
}

/// The first second that `chrono::DateTime<Utc>` can hold.
pub const FIRST_SECOND: i64 = -8_334_601_228_800;

/// The last second that `chrono::DateTime<Utc>` can hold.
pub const LAST_SECOND: i64 = 8_210_266_876_799;

/// The nanoseconds of a second.
pub const NANOS_PER_SECOND: u32 = 1_000_000_000;

/// The nanoseconds of a millisecond.
pub const NANOS_PER_MILLISECOND: u32 = 1_000_000;

/// What `chrono::DateTime<Utc>::checked_add_signed` makes of a point in time and a span of
/// milliseconds.
pub uninterp spec fn shifted_time(secs: i64, nanos: u32, millis: i64) -> Option<(i64, u32)>;

/// The point in time can be held and lies in no leap second.
pub open spec fn ordinary(time: Timestamp) -> bool {
    FIRST_SECOND <= time.secs <= LAST_SECOND && time.nanos < NANOS_PER_SECOND
}

/// The nanoseconds since the start of 1970.
pub open spec fn nanos_since_epoch(time: Timestamp) -> int {
    time.secs * NANOS_PER_SECOND + time.nanos
}

/// The point in time so many nanoseconds after the start of 1970, where it can be held.
pub open spec fn time_at(nanos: int) -> Option<(i64, u32)> {
    if FIRST_SECOND <= nanos / NANOS_PER_SECOND as int <= LAST_SECOND {
        Some(((nanos / NANOS_PER_SECOND as int) as i64, (nanos % NANOS_PER_SECOND as int) as u32))
    } else {
        None
    }
}

/// `chrono::DateTime<Utc>::checked_add_signed` with a `TimeDelta` of milliseconds. A point in
/// time that lies in no leap second moves by just that span, if the result can be held.
#[verifier::external_body]
fn shift_parts(secs: i64, nanos: u32, millis: i64) -> (result: Option<(i64, u32)>)
    requires
        millis > i64::MIN,
    ensures
        result == shifted_time(secs, nanos, millis),
        FIRST_SECOND <= secs <= LAST_SECOND && nanos < NANOS_PER_SECOND ==> result == time_at(
            secs * NANOS_PER_SECOND + nanos + millis * NANOS_PER_MILLISECOND,
        ),
{
    let time = chrono::DateTime::<chrono::Utc>::from_timestamp(secs, nanos)?;
    let shifted = time.checked_add_signed(chrono::TimeDelta::milliseconds(millis))?;
    Some((shifted.timestamp(), shifted.timestamp_subsec_nanos()))
}

/// `chrono::DateTime<Utc>::from_timestamp_millis`: the point in time so many milliseconds after
/// the start of 1970, where it can be held.
#[verifier::external_body]
fn parts_of_millis(millis: i64) -> (result: Option<(i64, u32)>)
    ensures
        result == time_at(millis * NANOS_PER_MILLISECOND),
{
    let time = chrono::DateTime::<chrono::Utc>::from_timestamp_millis(millis)?;
    Some((time.timestamp(), time.timestamp_subsec_nanos()))
}

/// The point in time with the given parts, where there are any.
pub open spec fn time_of_parts(parts: Option<(i64, u32)>) -> Option<Timestamp> {
    match parts {
        Some(parts) => Some(Timestamp { secs: parts.0, nanos: parts.1 }),
        None => None,
    }
}

impl Timestamp {
    /// The point in time moved by the milliseconds, where it can be held.
    pub open spec fn moved(self, millis: i64) -> Option<Timestamp> {
        time_of_parts(shifted_time(self.secs, self.nanos, millis))
    }

    /// The point in time moved by the milliseconds, where it can be held.
    pub fn checked_add_millis(&self, millis: i64) -> (result: Option<Timestamp>)
        requires
            millis > i64::MIN,
        ensures
            result == self.moved(millis),
            ordinary(*self) ==> result == time_of_parts(
                time_at(nanos_since_epoch(*self) + millis * NANOS_PER_MILLISECOND),
            ),
    {
        match shift_parts(self.secs, self.nanos, millis) {
            Some(parts) => Some(Timestamp { secs: parts.0, nanos: parts.1 }),
            None => None,
        }
    }

    /// The point in time so many milliseconds after the start of 1970, where it can be held.
    pub fn from_millis(millis: i64) -> (result: Option<Timestamp>)
        ensures
            result == time_of_parts(time_at(millis * NANOS_PER_MILLISECOND)),
    {
        match parts_of_millis(millis) {
            Some(parts) => Some(Timestamp { secs: parts.0, nanos: parts.1 }),
            None => None,
        }
    }
}

/// A span of time.
#[derive(Debug, Clone, Copy, PartialEq, Eq, PartialOrd, Ord, Hash, Structural)]
pub struct Duration {
    pub nanos: u128,
}

impl Duration {
    /// No time.
    pub fn zero() -> (result: Duration)
        ensures
            result.nanos == 0,
    {
        Duration { nanos: 0 }
    }

    /// So many milliseconds.
    pub fn from_millis(millis: u64) -> (result: Duration)
        ensures
            result.nanos == millis * 1_000_000,
    {
        Duration { nanos: millis as u128 * 1_000_000 }
    }

    /// So many seconds.
    pub fn from_secs(secs: u64) -> (result: Duration)
        ensures
            result.nanos == secs * 1_000_000_000,
    {
        Duration { nanos: secs as u128 * 1_000_000_000 }
    }

    /// The rest of the span behind another, or no time where the other is longer.
    pub open spec fn less_span(self, other: Duration) -> Duration {
        if self.nanos < other.nanos {
            Duration { nanos: 0 }
        } else {
            Duration { nanos: (self.nanos - other.nanos) as u128 }
        }
    }

    /// The rest of the span behind another, or no time where the other is longer.
    pub fn saturating_sub(&self, other: Duration) -> (result: Duration)
        ensures
            result == self.less_span(other),
    {
        if self.nanos < other.nanos {
            Duration { nanos: 0 }
        } else {
            Duration { nanos: self.nanos - other.nanos }
        }
    }
}

/// A reading of a clock that never goes back, in nanoseconds since some fixed point.
#[derive(Debug, Clone, Copy, PartialEq, Eq, PartialOrd, Ord, Hash, Structural)]
pub struct Instant {
    pub nanos: u128,
}

impl Instant {
    /// The time that has passed since another reading, or none where that came later.
    pub open spec fn since(self, earlier: Instant) -> Duration {
        Duration { nanos: self.nanos }.less_span(Duration { nanos: earlier.nanos })
    }

    /// The time that has passed since another reading, or none where that came later.
    pub fn duration_since(&self, earlier: Instant) -> (result: Duration)
        ensures
            result == self.since(earlier),
    {
        Duration { nanos: self.nanos }.saturating_sub(Duration { nanos: earlier.nanos })
    }
}

/// Of two points in time the earlier one lies fewer nanoseconds after the start of 1970.
pub proof fn law_earlier_times_come_before(first: Timestamp, second: Timestamp)
    requires
        first.nanos < 1_000_000_000,
        second.nanos < 1_000_000_000,
    ensures
        first.before(second) <==> first.secs * 1_000_000_000 + first.nanos < second.secs
            * 1_000_000_000 + second.nanos,
{
}

/// The time between two readings of a clock is their difference, and none where the clock was read
/// in the other order.
pub proof fn law_time_that_has_passed(earlier: Instant, later: Instant)
    ensures
        earlier.nanos <= later.nanos ==> earlier.nanos + later.since(earlier).nanos == later.nanos,
        earlier.nanos > later.nanos ==> later.since(earlier).nanos == 0,
{
}

/// A span is shortened by another, to no time where the other is longer.
pub proof fn law_span_is_shortened(span: Duration, other: Duration)
    ensures
        other.nanos <= span.nanos ==> other.nanos + span.less_span(other).nanos == span.nanos,
        other.nanos > span.nanos ==> span.less_span(other).nanos == 0,
{
}

} // verus!
