//! Instants on the time line, and the time that lies between two of them: to the
//! nanosecond, and in whole minutes.

use chrono::DateTime;
use vstd::prelude::*;

verus! {

/// The earliest second that a timestamp can hold: midnight at the start of the
/// calendar's first day, counted from 1 January 1970, 00:00:00 UTC.
pub const MIN_SECS: i64 = -8_334_601_228_800;

/// The latest second that a timestamp can hold: the last second of the calendar's
/// last day.
pub const MAX_SECS: i64 = 8_210_266_876_799;

/// Nanoseconds in one second.
pub const NANOS_PER_SEC: u32 = 1_000_000_000;

/// No two instants of the calendar lie more whole minutes apart than this.
pub const MAX_MINUTES_APART: i64 = 275_747_801_759;

/// No two instants of the calendar lie more nanoseconds apart than this.
pub const MAX_NANOS_APART: i128 = 16_544_868_105_599_999_999_999;

/// An instant: whole seconds since 1 January 1970, 00:00:00 UTC, and the
/// nanoseconds that have passed since that second began.
#[derive(Clone, Copy, Debug, PartialEq, Eq, Hash)]
pub struct Timestamp {
    pub secs: i64,
    pub nanos: u32,
}

/// Nanoseconds from `start` to `end`; negative where `end` comes first.
pub open spec fn nanos_between(start: Timestamp, end: Timestamp) -> int {
    (end.secs - start.secs) * 1_000_000_000 + (end.nanos - start.nanos)
}

/// Integer division that rounds toward zero, for a positive divisor.
pub open spec fn div_toward_zero(value: int, by: int) -> int {
    if value >= 0 {
        value / by
    } else {
        -((-value) / by)
    }
}

/// The whole minutes in a number of nanoseconds: a started minute does not
/// count, in either direction.
pub open spec fn whole_minutes(nanos: int) -> int {
    div_toward_zero(nanos, 60_000_000_000)
}

/// Whole minutes from `start` to `end`.
pub open spec fn minutes_between(start: Timestamp, end: Timestamp) -> int {
    whole_minutes(nanos_between(start, end))
}

impl Timestamp {
    /// A timestamp is well formed when its second lies in the calendar and its
    /// nanoseconds stay below one second.
    pub open spec fn wf(self) -> bool {
        &&& MIN_SECS <= self.secs <= MAX_SECS
        &&& self.nanos < NANOS_PER_SEC
    }

    /// The timestamp with the given parts, if they are well formed.
    pub fn new(secs: i64, nanos: u32) -> (stamp: Option<Timestamp>)
        ensures
            stamp == (if (Timestamp { secs, nanos }).wf() {
                Some(Timestamp { secs, nanos })
            } else {
                None
            }),
    {
        if MIN_SECS <= secs && secs <= MAX_SECS && nanos < NANOS_PER_SEC {
            Some(Timestamp { secs, nanos })
        } else {
            None
        }
    }

    /// Tells whether this timestamp is well formed.
    pub fn is_valid(&self) -> (valid: bool)
        ensures
            valid == self.wf(),
    {
        MIN_SECS <= self.secs && self.secs <= MAX_SECS && self.nanos < NANOS_PER_SEC
    }

    /// The timestamp with the given parts, where the nanoseconds may reach into
    /// a leap second: from one billion on they count into the second that
    /// follows. There is none for two billion nanoseconds or more, nor where the
    /// second so reached lies outside the calendar.
    pub fn folded(secs: i64, nanos: u32) -> (stamp: Option<Timestamp>)
        ensures
            stamp == Timestamp::fold(secs as int, nanos as int),
    {
        if nanos < NANOS_PER_SEC {
            Timestamp::new(secs, nanos)
        } else if nanos - NANOS_PER_SEC < NANOS_PER_SEC && secs < MAX_SECS {
            Timestamp::new(secs + 1, nanos - NANOS_PER_SEC)
        } else {
            None
        }
    }

    /// What `folded` gives: the parts as they are while the nanoseconds stay
    /// below one second, and carried into the next second from there on.
    pub open spec fn fold(secs: int, nanos: int) -> Option<Timestamp> {
        let whole = if nanos < 1_000_000_000 {
            secs
        } else {
            secs + 1
        };
        let beyond = if nanos < 1_000_000_000 {
            nanos
        } else {
            nanos - 1_000_000_000
        };
        if 0 <= nanos < 2_000_000_000 && MIN_SECS <= whole <= MAX_SECS {
            Some(Timestamp { secs: whole as i64, nanos: beyond as u32 })
        } else {
            None
        }
    }

    /// Whole minutes from this instant to `later`; negative where `later` comes
    /// first.
    pub fn minutes_until(&self, later: Timestamp) -> (minutes: i64)
        requires
            self.wf(),
            later.wf(),
        ensures
            minutes == minutes_between(*self, later),
            -MAX_MINUTES_APART <= minutes <= MAX_MINUTES_APART,
    {
        proof {
            lemma_time_between_bounded(*self, later);
        }
        span_between(*self, later).minutes
    }

    /// Nanoseconds from this instant to `later`; negative where `later` comes
    /// first.
    pub fn nanos_until(&self, later: Timestamp) -> (nanos: i128)
        requires
            self.wf(),
            later.wf(),
        ensures
            nanos == nanos_between(*self, later),
            -MAX_NANOS_APART <= nanos <= MAX_NANOS_APART,
    {
        proof {
            lemma_time_between_bounded(*self, later);
        }
        let span = span_between(*self, later);
        (span.secs as i128) * 1_000_000_000 + (span.nanos as i128)
    }
}

/// A stretch of time as `chrono` reads it off a difference: its whole minutes,
/// its whole seconds, and the nanoseconds beyond the whole seconds. All three
/// are negative or zero for a stretch that runs backwards.
#[derive(Clone, Copy, Debug, PartialEq, Eq)]
pub struct Span {
    pub minutes: i64,
    pub secs: i64,
    pub nanos: i32,
}

/// The span of a number of nanoseconds: minutes and seconds rounded toward
/// zero, and what remains beyond the whole seconds.
pub open spec fn span_of(nanos: int) -> Span {
    Span {
        minutes: whole_minutes(nanos) as i64,
        secs: div_toward_zero(nanos, 1_000_000_000) as i64,
        nanos: (nanos - 1_000_000_000 * div_toward_zero(nanos, 1_000_000_000)) as i32,
    }
}

/// Measures the time between two instants with `chrono`: `DateTime::from_timestamp`
/// rebuilds both, their difference is taken with `-` (`DateTime::signed_duration_since`),
/// and `TimeDelta::num_minutes`, `TimeDelta::num_seconds` and
/// `TimeDelta::subsec_nanos` read it off. The contract claims that the minutes
/// and the seconds are the exact difference in nanoseconds divided by those of a
/// minute and of a second, rounded toward zero, and that the nanoseconds are what
/// remains beyond the whole seconds. It leaves out instants within a leap second,
/// which count one billion nanoseconds or more and which `chrono` measures
/// otherwise.
#[verifier::external_body]
pub(crate) fn span_between(start: Timestamp, end: Timestamp) -> (span: Span)
    requires
        start.wf(),
        end.wf(),
    ensures
        span == span_of(nanos_between(start, end)),
{
    let from = DateTime::from_timestamp(start.secs, start.nanos).unwrap();
    let to = DateTime::from_timestamp(end.secs, end.nanos).unwrap();
    let between = to - from;
    Span {
        minutes: between.num_minutes(),
        secs: between.num_seconds(),
        nanos: between.subsec_nanos(),
    }
}

/// Between two well-formed instants lie at most `MAX_NANOS_APART` nanoseconds
/// and `MAX_MINUTES_APART` whole minutes.
pub proof fn lemma_time_between_bounded(start: Timestamp, end: Timestamp)
    requires
        start.wf(),
        end.wf(),
    ensures
        -MAX_NANOS_APART <= nanos_between(start, end) <= MAX_NANOS_APART,
        -MAX_MINUTES_APART <= minutes_between(start, end) <= MAX_MINUTES_APART,
{
}

/// No time lies between an instant and itself.
pub proof fn law_no_minutes_to_itself(at: Timestamp)
    ensures
        nanos_between(at, at) == 0,
        minutes_between(at, at) == 0,
{
}

/// A count of minutes shown as hours and the minutes left over.
#[derive(Clone, Copy, Debug, PartialEq, Eq)]
pub struct HoursMinutes {
    pub hours: i128,
    pub minutes: i128,
}

/// Hours and left-over minutes of a total: the hours are the total divided by 60
/// and rounded toward zero, the minutes are what remains.
pub open spec fn hours_minutes_of(total: int) -> HoursMinutes {
    HoursMinutes {
        hours: div_toward_zero(total, 60) as i128,
        minutes: (total - 60 * div_toward_zero(total, 60)) as i128,
    }
}

/// Splits a total of minutes into hours and left-over minutes for display.
pub fn split_hours_minutes(total: i128) -> (shown: HoursMinutes)
    ensures
        shown == hours_minutes_of(total as int),
        shown.hours * 60 + shown.minutes == total,
        total >= 0 ==> 0 <= shown.minutes < 60,
        total <= 0 ==> -60 < shown.minutes <= 0,
{
    HoursMinutes { hours: total / 60, minutes: total % 60 }
}

} // verus!
