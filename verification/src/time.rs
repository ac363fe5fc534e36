//! Instants and durations as plain integers.

use vstd::prelude::*;

verus! {

/// Number of nanoseconds in one second.
pub const NANOS_PER_SEC: u32 = 1_000_000_000;

/// The last second of the year 9999, counted from the Unix epoch. No
/// `Timestamp` lies beyond it, so every timestamp can be written as an
/// HTTP date.
pub const MAX_SECS: u64 = 253_402_300_799;

/// An instant of the wall clock: seconds and nanoseconds since the Unix epoch.
#[derive(Clone, Copy, Debug, PartialEq, Eq, Structural)]
pub struct Timestamp {
    pub secs: u64,
    pub nanos: u32,
}

/// A length of time: whole seconds and the nanoseconds beyond them.
#[derive(Clone, Copy, Debug, PartialEq, Eq, Structural)]
pub struct Span {
    pub secs: u64,
    pub nanos: u32,
}

impl Timestamp {
    /// The instant lies within the supported range and is in normal form.
    pub open spec fn wf(self) -> bool {
        self.secs <= MAX_SECS && self.nanos < NANOS_PER_SEC
    }

    /// Nanoseconds since the Unix epoch.
    pub open spec fn total_nanos(self) -> nat {
        (self.secs * 1_000_000_000 + self.nanos) as nat
    }

    /// Builds a timestamp, or `None` where the pair is out of range.
    pub fn new(secs: u64, nanos: u32) -> (r: Option<Timestamp>)
        ensures
            r == (if secs <= MAX_SECS && nanos < NANOS_PER_SEC {
                Some(Timestamp { secs, nanos })
            } else {
                None
            }),
    {
        if secs <= MAX_SECS && nanos < NANOS_PER_SEC {
            Some(Timestamp { secs, nanos })
        } else {
            None
        }
    }

    /// Tells whether the instant is well formed.
    pub fn is_valid(&self) -> (r: bool)
        ensures
            r == self.wf(),
    {
        self.secs <= MAX_SECS && self.nanos < NANOS_PER_SEC
    }

    /// Time that has passed from `self` to `later`; zero where `later` is
    /// not after `self`.
    pub fn elapsed_until(&self, later: &Timestamp) -> (r: Span)
        requires
            self.wf(),
            later.wf(),
        ensures
            r.wf(),
            r.total_nanos() == elapsed(*self, *later),
    {
        if later.secs < self.secs || (later.secs == self.secs && later.nanos <= self.nanos) {
            Span { secs: 0, nanos: 0 }
        } else if later.nanos >= self.nanos {
            Span { secs: later.secs - self.secs, nanos: later.nanos - self.nanos }
        } else {
            Span {
                secs: later.secs - self.secs - 1,
                nanos: later.nanos + NANOS_PER_SEC - self.nanos,
            }
        }
    }
}

/// Nanoseconds from `from` to `to`, zero where `to` is not later.
pub open spec fn elapsed(from: Timestamp, to: Timestamp) -> nat {
    if to.total_nanos() >= from.total_nanos() {
        (to.total_nanos() - from.total_nanos()) as nat
    } else {
        0
    }
}

impl Span {
    /// The span is in normal form.
    pub open spec fn wf(self) -> bool {
        self.nanos < NANOS_PER_SEC
    }

    /// The span in nanoseconds.
    pub open spec fn total_nanos(self) -> nat {
        (self.secs * 1_000_000_000 + self.nanos) as nat
    }

    /// The empty span.
    pub fn zero() -> (r: Span)
        ensures
            r == (Span { secs: 0, nanos: 0 }),
            r.total_nanos() == 0,
    {
        Span { secs: 0, nanos: 0 }
    }

    /// Tells whether the span is empty.
    pub fn is_zero(&self) -> (r: bool)
        requires
            self.wf(),
        ensures
            r == (self.total_nanos() == 0),
    {
        self.secs == 0 && self.nanos == 0
    }

    /// What is left of `self` after `used` has passed; zero once `used`
    /// reaches `self`.
    pub fn saturating_sub(&self, used: &Span) -> (r: Span)
        requires
            self.wf(),
            used.wf(),
        ensures
            r.wf(),
            r.total_nanos() == left_after(self.total_nanos(), used.total_nanos()),
    {
        if self.secs < used.secs || (self.secs == used.secs && self.nanos <= used.nanos) {
            Span { secs: 0, nanos: 0 }
        } else if self.nanos >= used.nanos {
            Span { secs: self.secs - used.secs, nanos: self.nanos - used.nanos }
        } else {
            Span {
                secs: self.secs - used.secs - 1,
                nanos: self.nanos + NANOS_PER_SEC - used.nanos,
            }
        }
    }
}

/// Subtraction that stops at zero.
pub open spec fn left_after(total: nat, used: nat) -> nat {
    if total >= used {
        (total - used) as nat
    } else {
        0
    }
}

} // verus!
