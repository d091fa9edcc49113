//! Points in time and spans of time, counted in nanoseconds.

use vstd::prelude::*;

verus! {

/// The longest span of time, in nanoseconds: `u64::MAX` seconds and a last
/// second that is one nanosecond short.
pub const MAX_DURATION_NANOS: u128 = 18_446_744_073_709_551_615_999_999_999;

/// The number of values of a 64-bit counter.
pub const WORD_RANGE: u128 = 0x1_0000_0000_0000_0000;

/// A span of time.
#[derive(Debug, Clone, Copy, PartialEq, Eq, Structural)]
pub struct Duration {
    /// Its length in nanoseconds.
    pub nanos: u128,
}

impl Default for Duration {
    fn default() -> (d: Self)
        ensures
            d.nanos == 0,
    {
        Duration { nanos: 0 }
    }
}

impl Duration {
    /// A span of whole seconds.
    pub fn from_secs(secs: u64) -> (d: Self)
        ensures
            d.nanos == secs * 1_000_000_000,
    {
        Duration { nanos: secs as u128 * 1_000_000_000 }
    }

    /// A span of whole milliseconds.
    pub fn from_millis(millis: u64) -> (d: Self)
        ensures
            d.nanos == millis * 1_000_000,
    {
        Duration { nanos: millis as u128 * 1_000_000 }
    }

    /// A span of whole microseconds.
    pub fn from_micros(micros: u64) -> (d: Self)
        ensures
            d.nanos == micros * 1_000,
    {
        Duration { nanos: micros as u128 * 1_000 }
    }

    /// The whole microseconds of this span, as a 64-bit counter shows them.
    pub open spec fn micros(self) -> u64 {
        ((self.nanos / 1_000) % WORD_RANGE) as u64
    }

    /// The whole microseconds of this span, reduced to 64 bits.
    pub fn as_micros(&self) -> (us: u64)
        ensures
            us == self.micros(),
    {
        ((self.nanos / 1_000) % WORD_RANGE) as u64
    }

    /// Whether eight times this span is still a span.
    pub open spec fn octuple_fits(self) -> bool {
        self.nanos * 8 <= MAX_DURATION_NANOS
    }

    /// Eight times this span.
    pub fn octuple(&self) -> (d: Self)
        requires
            self.octuple_fits(),
        ensures
            d.nanos == self.nanos * 8,
    {
        Duration { nanos: self.nanos * 8 }
    }

    /// Whether this span is longer than `other`.
    #[verifier::allow_in_spec]
    pub fn exceeds(&self, other: Duration) -> bool
        returns
            self.nanos > other.nanos,
    {
        self.nanos > other.nanos
    }
}

/// A point in time.
#[derive(Debug, Clone, Copy, PartialEq, Eq, Structural)]
pub struct Instant {
    /// Nanoseconds since the origin of the clock.
    pub nanos: u128,
}

impl Instant {
    /// The time from `earlier` to this point, zero where `earlier` is later.
    #[verifier::allow_in_spec]
    pub fn since(&self, earlier: Instant) -> Duration
        returns
            (Duration {
                nanos: (if self.nanos >= earlier.nanos {
                    (self.nanos - earlier.nanos) as u128
                } else {
                    0
                }),
            }),
    {
        if self.nanos >= earlier.nanos {
            Duration { nanos: self.nanos - earlier.nanos }
        } else {
            Duration { nanos: 0 }
        }
    }

    /// Whether the clock can show the point that lies `span` after this one.
    pub open spec fn plus_fits(self, span: Duration) -> bool {
        self.nanos + span.nanos <= u128::MAX
    }

    /// The point that lies `span` after this one.
    pub fn plus(&self, span: Duration) -> (later: Self)
        requires
            self.plus_fits(span),
        ensures
            later.nanos == self.nanos + span.nanos,
    {
        Instant { nanos: self.nanos + span.nanos }
    }

    /// Whether this point is `other` or lies after it.
    #[verifier::allow_in_spec]
    pub fn reached(&self, other: Instant) -> bool
        returns
            self.nanos >= other.nanos,
    {
        self.nanos >= other.nanos
    }
}

} // verus!
