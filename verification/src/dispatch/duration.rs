//! Non-negative spans of time measured in nanoseconds.

use vstd::prelude::*;

verus! {

/// One non-negative span of time, with nanosecond resolution.
#[derive(Clone, Copy, Debug, PartialEq, Eq, Structural, Hash, PartialOrd, Ord)]
pub struct Duration {
    nanos: u128,
}

/// Nanoseconds in one second.
pub const NANOS_PER_SECOND: u128 = 1_000_000_000;

/// Nanoseconds in one millisecond.
pub const NANOS_PER_MILLISECOND: u128 = 1_000_000;

impl Duration {
    /// Length of the span in nanoseconds.
    pub closed spec fn nanos_spec(self) -> nat {
        self.nanos as nat
    }

    /// The empty span.
    pub fn zero() -> (r: Self)
        ensures
            r.nanos_spec() == 0,
    {
        Duration { nanos: 0 }
    }

    /// A span of whole seconds.
    pub fn from_secs(secs: u64) -> (r: Self)
        ensures
            r.nanos_spec() == secs * NANOS_PER_SECOND,
    {
        assert(secs * NANOS_PER_SECOND <= u64::MAX * NANOS_PER_SECOND) by (nonlinear_arith);
        Duration { nanos: secs as u128 * NANOS_PER_SECOND }
    }

    /// A span of whole milliseconds.
    pub fn from_millis(millis: u64) -> (r: Self)
        ensures
            r.nanos_spec() == millis * NANOS_PER_MILLISECOND,
    {
        assert(millis * NANOS_PER_MILLISECOND <= u64::MAX * NANOS_PER_MILLISECOND)
            by (nonlinear_arith);
        Duration { nanos: millis as u128 * NANOS_PER_MILLISECOND }
    }

    /// A span of nanoseconds.
    pub fn from_nanos(nanos: u128) -> (r: Self)
        ensures
            r.nanos_spec() == nanos,
    {
        Duration { nanos }
    }

    /// Returns the span in nanoseconds.
    pub fn as_nanos(self) -> (r: u128)
        ensures
            r == self.nanos_spec(),
    {
        self.nanos
    }

    /// Whether the span is empty.
    pub fn is_zero(self) -> (r: bool)
        ensures
            r == (self.nanos_spec() == 0),
    {
        self.nanos == 0
    }

    /// Whether this span is no longer than `other`.
    pub fn at_most(self, other: Self) -> (r: bool)
        ensures
            r == (self.nanos_spec() <= other.nanos_spec()),
    {
        self.nanos <= other.nanos
    }
}

} // verus!
