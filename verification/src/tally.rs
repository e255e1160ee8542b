//! Time added up exactly: the sum of many stretches of time is kept to the
//! nanosecond, and truncated to whole minutes only once, when it is read.

use crate::instant::whole_minutes;
use vstd::prelude::*;

verus! {

/// Nanoseconds in one minute.
pub const NANOS_PER_MINUTE: i128 = 60_000_000_000;

/// The most minutes that a tally may hold where tallies are added.
pub const TALLY_LIMIT: i128 = 10_000_000_000_000_000_000_000_000_000_000_000_000;

/// A sum of time: `minutes` whole minutes and `nanos` nanoseconds more. The two
/// parts may differ in sign; together they stand for one number of nanoseconds.
#[derive(Clone, Copy, Debug, PartialEq, Eq)]
pub struct Tally {
    pub minutes: i128,
    pub nanos: i128,
}

impl Tally {
    /// The nanoseconds that the tally stands for.
    pub open spec fn value(self) -> int {
        self.minutes * 60_000_000_000 + self.nanos
    }

    /// A tally is well formed when its nanoseconds stay within one minute and
    /// its minutes within the limit up to which tallies can be added.
    pub open spec fn wf(self) -> bool {
        &&& -NANOS_PER_MINUTE < self.nanos < NANOS_PER_MINUTE
        &&& -TALLY_LIMIT <= self.minutes <= TALLY_LIMIT
    }

    /// The settled tally of a number of nanoseconds: its whole minutes, rounded
    /// toward zero, and what remains beyond them.
    pub open spec fn of(nanos: int) -> Tally {
        Tally {
            minutes: whole_minutes(nanos) as i128,
            nanos: (nanos - 60_000_000_000 * whole_minutes(nanos)) as i128,
        }
    }

    /// The tally of no time.
    pub fn zero() -> (tally: Tally)
        ensures
            tally == (Tally { minutes: 0, nanos: 0 }),
    {
        Tally { minutes: 0, nanos: 0 }
    }

    /// The tally of a number of nanoseconds.
    pub fn of_nanos(nanos: i128) -> (tally: Tally)
        ensures
            tally == Tally::of(nanos as int),
            tally.value() == nanos,
            -NANOS_PER_MINUTE < tally.nanos < NANOS_PER_MINUTE,
    {
        Tally { minutes: nanos / NANOS_PER_MINUTE, nanos: nanos % NANOS_PER_MINUTE }
    }

    /// The sum of two tallies. Its minutes are those of the two added up, and
    /// the whole minute, forwards or backwards, that their nanoseconds may make
    /// up together.
    pub fn plus(self, other: Tally) -> (sum: Tally)
        requires
            self.wf(),
            other.wf(),
        ensures
            sum.value() == self.value() + other.value(),
            sum.minutes == self.minutes + other.minutes + whole_minutes(self.nanos + other.nanos),
            -NANOS_PER_MINUTE < sum.nanos < NANOS_PER_MINUTE,
            self.minutes + other.minutes - 1 <= sum.minutes <= self.minutes + other.minutes + 1,
    {
        let beyond: i128 = self.nanos + other.nanos;
        Tally {
            minutes: self.minutes + other.minutes + beyond / NANOS_PER_MINUTE,
            nanos: beyond % NANOS_PER_MINUTE,
        }
    }

    /// The same time as a settled tally, in which minutes and nanoseconds do not
    /// differ in sign.
    pub fn settled(self) -> (tally: Tally)
        requires
            self.wf(),
        ensures
            tally == Tally::of(self.value()),
            tally.value() == self.value(),
            -NANOS_PER_MINUTE < tally.nanos < NANOS_PER_MINUTE,
            self.minutes >= 0 ==> 0 <= tally.minutes <= self.minutes,
            self.minutes <= 0 ==> self.minutes <= tally.minutes <= 0,
    {
        let minutes: i128 = self.whole_minutes();
        Tally { minutes, nanos: self.nanos + (self.minutes - minutes) * NANOS_PER_MINUTE }
    }

    /// The whole minutes of the tally: what it stands for, divided by the
    /// nanoseconds of a minute and rounded toward zero.
    pub fn whole_minutes(self) -> (minutes: i128)
        requires
            self.wf(),
        ensures
            minutes == whole_minutes(self.value()),
    {
        if self.minutes > 0 && self.nanos < 0 {
            self.minutes - 1
        } else if self.minutes < 0 && self.nanos > 0 {
            self.minutes + 1
        } else {
            self.minutes
        }
    }
}

} // verus!
