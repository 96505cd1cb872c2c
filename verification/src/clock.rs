//! Monotonic time for the engine: an `Instant` is a count of nanoseconds
//! since an arbitrary origin, a `Duration` a count of nanoseconds.  All
//! arithmetic saturates rather than panics, and subtraction of instants
//! saturates at zero.

use vstd::prelude::*;

verus! {

pub const NANOS_PER_MILLI: u64 = 1_000_000;
pub const NANOS_PER_SEC: u64 = 1_000_000_000;

#[derive(Clone, Copy, Debug, PartialEq, Eq, Structural, Hash)]
pub struct Duration {
    pub ns: u64,
}

impl Duration {
    pub fn from_nanos(ns: u64) -> (r: Duration)
        ensures
            r.ns == ns,
    {
        Duration { ns }
    }

    pub fn from_millis(ms: u64) -> (r: Duration)
        requires
            ms * NANOS_PER_MILLI <= u64::MAX,
        ensures
            r.ns == ms * NANOS_PER_MILLI,
    {
        Duration { ns: ms * NANOS_PER_MILLI }
    }

    pub fn from_secs(s: u64) -> (r: Duration)
        requires
            s * NANOS_PER_SEC <= u64::MAX,
        ensures
            r.ns == s * NANOS_PER_SEC,
    {
        Duration { ns: s * NANOS_PER_SEC }
    }

    pub fn zero() -> (r: Duration)
        ensures
            r.ns == 0,
    {
        Duration { ns: 0 }
    }

    pub fn is_zero(&self) -> (r: bool)
        ensures
            r == (self.ns == 0),
    {
        self.ns == 0
    }

    /// Saturating doubling, used by the binary-exponential retry schedule.
    pub fn doubled(&self) -> (r: Duration)
        ensures
            self.ns * 2 <= u64::MAX ==> r.ns == self.ns * 2,
            self.ns * 2 > u64::MAX ==> r.ns == u64::MAX,
    {
        if self.ns > u64::MAX / 2 {
            Duration { ns: u64::MAX }
        } else {
            Duration { ns: self.ns * 2 }
        }
    }

    pub fn le(&self, other: &Duration) -> (r: bool)
        ensures
            r == (self.ns <= other.ns),
    {
        self.ns <= other.ns
    }

    pub fn lt(&self, other: &Duration) -> (r: bool)
        ensures
            r == (self.ns < other.ns),
    {
        self.ns < other.ns
    }
}

#[derive(Clone, Copy, Debug, PartialEq, Eq, Structural, Hash)]
pub struct Instant {
    pub ns: u64,
}

impl Instant {
    pub fn from_nanos(ns: u64) -> (r: Instant)
        ensures
            r.ns == ns,
    {
        Instant { ns }
    }

    /// Saturating addition of a delay to an instant.
    pub fn plus(&self, d: Duration) -> (r: Instant)
        ensures
            self.ns + d.ns <= u64::MAX ==> r.ns == self.ns + d.ns,
            self.ns + d.ns > u64::MAX ==> r.ns == u64::MAX,
    {
        if self.ns > u64::MAX - d.ns {
            Instant { ns: u64::MAX }
        } else {
            Instant { ns: self.ns + d.ns }
        }
    }

    /// Elapsed time since `earlier`, saturating at zero.
    pub fn since(&self, earlier: Instant) -> (r: Duration)
        ensures
            earlier.ns <= self.ns ==> r.ns == self.ns - earlier.ns,
            earlier.ns > self.ns ==> r.ns == 0,
    {
        if self.ns >= earlier.ns {
            Duration { ns: self.ns - earlier.ns }
        } else {
            Duration { ns: 0 }
        }
    }

    pub fn le(&self, other: &Instant) -> (r: bool)
        ensures
            r == (self.ns <= other.ns),
    {
        self.ns <= other.ns
    }

    pub fn lt(&self, other: &Instant) -> (r: bool)
        ensures
            r == (self.ns < other.ns),
    {
        self.ns < other.ns
    }
}

} // verus!
