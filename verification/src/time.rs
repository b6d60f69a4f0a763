//! Spans and points of time, counted in nanoseconds.

use vstd::prelude::*;

verus! {

/// Nanoseconds in a second.
pub const NANOS_PER_SEC: u128 = 1_000_000_000;

/// Nanoseconds in a millisecond.
pub const NANOS_PER_MILLI: u128 = 1_000_000;

/// The longest span: `u64::MAX` seconds and 999,999,999 nanoseconds.
pub const MAX_NANOS: u128 = 18_446_744_073_709_551_615_999_999_999;

/// A span of time.
#[derive(Debug, Clone, Copy, PartialEq, Eq, Structural)]
pub struct Duration {
    nanos: u128,
}

impl View for Duration {
    type V = nat;

    /// The length of the span in nanoseconds.
    closed spec fn view(&self) -> nat {
        self.nanos as nat
    }
}

impl Duration {
    #[verifier::type_invariant]
    spec fn fits(self) -> bool {
        self.nanos <= MAX_NANOS
    }

    /// A span of whole seconds.
    pub fn from_secs(secs: u64) -> (res: Self)
        ensures
            res@ == secs * NANOS_PER_SEC,
    {
        Duration { nanos: secs as u128 * NANOS_PER_SEC }
    }

    /// A span of whole milliseconds.
    pub fn from_millis(millis: u64) -> (res: Self)
        ensures
            res@ == millis * NANOS_PER_MILLI,
    {
        Duration { nanos: millis as u128 * NANOS_PER_MILLI }
    }

    /// A span of `secs` seconds and `nanos` nanoseconds.
    pub fn new(secs: u64, nanos: u32) -> (res: Self)
        requires
            nanos < NANOS_PER_SEC,
        ensures
            res@ == secs * NANOS_PER_SEC + nanos,
    {
        Duration { nanos: secs as u128 * NANOS_PER_SEC + nanos as u128 }
    }

    /// The whole seconds in the span.
    pub fn as_secs(&self) -> (res: u64)
        ensures
            res == self@ / (NANOS_PER_SEC as nat),
    {
        proof {
            use_type_invariant(self);
        }
        (self.nanos / NANOS_PER_SEC) as u64
    }

    /// The nanoseconds beyond the whole seconds.
    pub fn subsec_nanos(&self) -> (res: u32)
        ensures
            res == self@ % (NANOS_PER_SEC as nat),
    {
        (self.nanos % NANOS_PER_SEC) as u32
    }

    /// The whole milliseconds in the span.
    pub fn as_millis(&self) -> (res: u128)
        ensures
            res == self@ / (NANOS_PER_MILLI as nat),
    {
        self.nanos / NANOS_PER_MILLI
    }

    /// Whether this span is at least as long as `other`.
    pub fn at_least(&self, other: Duration) -> (res: bool)
        ensures
            res == (self@ >= other@),
    {
        self.nanos >= other.nanos
    }

    /// The shorter of two spans.
    pub fn min(self, other: Duration) -> (res: Self)
        ensures
            res == if self@ <= other@ {
                self
            } else {
                other
            },
    {
        if self.nanos <= other.nanos {
            self
        } else {
            other
        }
    }
}

/// A reading of a clock that never runs backwards, in nanoseconds since some
/// fixed moment.
#[derive(Debug, Clone, Copy, PartialEq, Eq, Structural)]
pub struct Instant {
    /// Nanoseconds since that moment.
    pub nanos: u64,
}

/// The milliseconds from `earlier` to `later`; none where `later` is not later.
pub open spec fn millis_between(earlier: Instant, later: Instant) -> u64 {
    if later.nanos >= earlier.nanos {
        ((later.nanos - earlier.nanos) / (NANOS_PER_MILLI as int)) as u64
    } else {
        0
    }
}

impl Instant {
    /// The whole milliseconds since `earlier`; zero where `earlier` is later.
    pub fn millis_since(&self, earlier: Instant) -> (res: u64)
        ensures
            res == millis_between(earlier, *self),
    {
        if self.nanos >= earlier.nanos {
            (self.nanos - earlier.nanos) / 1_000_000
        } else {
            0
        }
    }
}

} // verus!
