//! Time abstraction traits for platform-agnostic timing.
//!
//! The library never reads a clock itself: a [`TimeSource`] supplies instants, and
//! [`TimeDuration`] converts to and from milliseconds, in which all sequence arithmetic
//! is done. The `spec` functions below are the model the contracts of this crate are
//! stated in; an implementation keeps its methods consistent with them.
use vstd::prelude::*;

verus! {

/// Trait for abstracting time sources.
pub trait TimeSource<I: TimeInstant> {
    /// Returns the current time instant.
    fn now(&self) -> I;
}

/// Trait abstraction for duration types.
pub trait TimeDuration: Copy + PartialEq + Sized {
    /// Zero duration constant.
    const ZERO: Self;

    /// The length of this duration in whole milliseconds.
    ///
    /// Every implementation defines its own; the library's contracts are stated over it.
    open spec fn millis(&self) -> u64 {
        arbitrary()
    }

    /// Converts duration to milliseconds.
    fn as_millis(&self) -> (r: u64)
        ensures
            r == self.millis(),
    ;

    /// Creates duration from milliseconds.
    ///
    /// The round trip through [`millis`](Self::millis) is exact. A duration type that
    /// cannot hold every `u64` count of milliseconds meets this only for the counts it
    /// can hold: one that stores 32 bits truncates larger counts, and one that counts
    /// microseconds overflows above `u64::MAX / 1000` milliseconds. The library passes
    /// it only counts no larger than a loop's length or a time it has read.
    fn from_millis(millis: u64) -> (r: Self)
        ensures
            r.millis() == millis,
    ;

    /// Saturating subtraction (returns ZERO on underflow).
    fn saturating_sub(self, other: Self) -> (r: Self)
        ensures
            r.millis() == (if self.millis() >= other.millis() {
                self.millis() - other.millis()
            } else {
                0
            }),
    ;
}

/// Trait abstraction for instant types.
pub trait TimeInstant: Copy + Sized {
    /// Duration type for this instant.
    type Duration: TimeDuration;

    /// The duration that `duration_since` returns for these two instants.
    open spec fn since(&self, earlier: Self) -> Self::Duration {
        arbitrary()
    }

    /// The instant that `checked_add` returns.
    open spec fn plus(self, duration: Self::Duration) -> Option<Self> {
        arbitrary()
    }

    /// The instant that `checked_sub` returns.
    open spec fn minus(self, duration: Self::Duration) -> Option<Self> {
        arbitrary()
    }

    /// Calculates duration since an earlier instant.
    fn duration_since(&self, earlier: Self) -> (r: Self::Duration)
        ensures
            r == self.since(earlier),
    ;

    /// Adds duration to instant, returns None on overflow.
    fn checked_add(self, duration: Self::Duration) -> (r: Option<Self>)
        ensures
            r == self.plus(duration),
    ;

    /// Subtracts duration from instant, returns None on underflow.
    fn checked_sub(self, duration: Self::Duration) -> (r: Option<Self>)
        ensures
            r == self.minus(duration),
    ;
}

} // verus!
