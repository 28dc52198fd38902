//! Lengths of time on the timeline, in whole nanoseconds.
use vstd::prelude::*;

verus! {

/// Nanoseconds in one second.
pub const NANOS_PER_SEC: u128 = 1_000_000_000;

/// Nanoseconds in one millisecond.
pub const NANOS_PER_MILLI: u128 = 1_000_000;

/// The longest length of time: `u64::MAX` seconds and 999,999,999 nanoseconds.
pub const MAX_NANOS: u128 = 18_446_744_073_709_551_615_999_999_999;

/// A length of time, or a position counted from the start of the timeline.
///
/// It has the range and the resolution of `std::time::Duration`. Every
/// operation below is total, so a value past `MAX_NANOS` does no harm, but none
/// of them makes one from values that are in range.
#[derive(Clone, Copy, Debug, PartialEq, Eq, PartialOrd, Ord, Hash, Structural)]
pub struct Duration {
    pub nanos: u128,
}

impl View for Duration {
    type V = int;

    open spec fn view(&self) -> int {
        self.nanos as int
    }
}

impl Default for Duration {
    fn default() -> (d: Self)
        ensures
            d@ == 0,
    {
        Duration { nanos: 0 }
    }
}

/// The smaller of two numbers.
pub open spec fn least(a: int, b: int) -> int {
    if a <= b {
        a
    } else {
        b
    }
}

/// The larger of two numbers.
pub open spec fn greatest(a: int, b: int) -> int {
    if a <= b {
        b
    } else {
        a
    }
}

/// `a - b`, but never below zero.
pub open spec fn monus(a: int, b: int) -> int {
    if a <= b {
        0
    } else {
        a - b
    }
}

/// `x` brought into the range from `low` to `high`.
pub open spec fn clamped(x: int, low: int, high: int) -> int {
    if x < low {
        low
    } else if x > high {
        high
    } else {
        x
    }
}

impl Duration {
    /// The length of time with the given number of nanoseconds, as a value of
    /// specifications.
    pub open spec fn of(nanos: int) -> Duration {
        Duration { nanos: nanos as u128 }
    }

    /// No time at all.
    pub fn zero() -> (d: Self)
        ensures
            d@ == 0,
    {
        Duration { nanos: 0 }
    }

    /// A whole number of seconds.
    pub fn from_secs(secs: u64) -> (d: Self)
        ensures
            d@ == secs * 1_000_000_000,
            d@ <= MAX_NANOS,
    {
        Duration { nanos: secs as u128 * NANOS_PER_SEC }
    }

    /// A whole number of milliseconds.
    pub fn from_millis(millis: u64) -> (d: Self)
        ensures
            d@ == millis * 1_000_000,
            d@ <= MAX_NANOS,
    {
        Duration { nanos: millis as u128 * NANOS_PER_MILLI }
    }

    /// The whole milliseconds in this length of time.
    pub fn as_millis(self) -> (millis: u128)
        ensures
            millis == self@ / 1_000_000,
    {
        self.nanos / NANOS_PER_MILLI
    }

    /// The whole seconds in this length of time.
    pub fn as_secs(self) -> (secs: u128)
        ensures
            secs == self@ / 1_000_000_000,
    {
        self.nanos / NANOS_PER_SEC
    }

    /// The smaller of the two.
    pub fn min(self, other: Duration) -> (d: Duration)
        ensures
            d@ == least(self@, other@),
    {
        if self.nanos <= other.nanos {
            self
        } else {
            other
        }
    }

    /// The larger of the two.
    pub fn max(self, other: Duration) -> (d: Duration)
        ensures
            d@ == greatest(self@, other@),
    {
        if self.nanos <= other.nanos {
            other
        } else {
            self
        }
    }

    /// The sum; the longest length of time where the sum is past it.
    pub fn saturating_add(self, other: Duration) -> (d: Duration)
        ensures
            d@ == least(self@ + other@, MAX_NANOS as int),
    {
        match self.nanos.checked_add(other.nanos) {
            Some(sum) => if sum <= MAX_NANOS {
                Duration { nanos: sum }
            } else {
                Duration { nanos: MAX_NANOS }
            },
            None => Duration { nanos: MAX_NANOS },
        }
    }

    /// The difference; no time at all where `other` is longer.
    pub fn saturating_sub(self, other: Duration) -> (d: Duration)
        ensures
            d@ == monus(self@, other@),
    {
        if self.nanos <= other.nanos {
            Duration { nanos: 0 }
        } else {
            Duration { nanos: self.nanos - other.nanos }
        }
    }

    /// The sum of two lengths of time that is itself a length of time.
    pub fn plus(self, other: Duration) -> (d: Duration)
        requires
            self@ + other@ <= MAX_NANOS,
        ensures
            d@ == self@ + other@,
    {
        Duration { nanos: self.nanos + other.nanos }
    }

    /// The difference of two lengths of time, the first the longer.
    pub fn minus(self, other: Duration) -> (d: Duration)
        requires
            other@ <= self@,
        ensures
            d@ == self@ - other@,
    {
        Duration { nanos: self.nanos - other.nanos }
    }

    /// How far apart the two are.
    pub fn abs_diff(self, other: Duration) -> (d: Duration)
        ensures
            d@ == if self@ >= other@ {
                self@ - other@
            } else {
                other@ - self@
            },
    {
        if self.nanos >= other.nanos {
            Duration { nanos: self.nanos - other.nanos }
        } else {
            Duration { nanos: other.nanos - self.nanos }
        }
    }
}

} // verus!
