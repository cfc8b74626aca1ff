//! Time as plain numbers.
//!
//! The engine never reads a clock. Whoever drives it reads the clocks and
//! hands the readings in as the values of this module, all of them counted in
//! whole nanoseconds.

use vstd::prelude::*;

verus! {

/// Nanoseconds in one second.
pub const NANOS_PER_SEC: u128 = 1_000_000_000;

/// A reading of a clock that never runs backwards: nanoseconds since an
/// origin that the caller fixes once and keeps.
#[derive(Clone, Copy, Debug, PartialEq, Eq, Structural)]
pub struct Moment {
    pub nanos: u128,
}

/// A reading of the wall clock, or a file's time stamp: nanoseconds since the
/// start of 1970 (UTC), negative for times before it.
#[derive(Clone, Copy, Debug, PartialEq, Eq, Structural)]
pub struct Stamp {
    pub nanos: i128,
}

/// A length of time in nanoseconds.
#[derive(Clone, Copy, Debug, PartialEq, Eq, Structural)]
pub struct Span {
    pub nanos: u128,
}

impl Span {
    /// The span of `secs` whole seconds.
    pub fn from_secs(secs: u64) -> (span: Span)
        ensures
            span.nanos == secs * NANOS_PER_SEC,
    {
        let wide: u128 = secs as u128;
        Span { nanos: wide * NANOS_PER_SEC }
    }
}

impl Moment {
    /// The moment that lies `span` after this one, where it can be written
    /// down at all.
    pub fn checked_add(self, span: Span) -> (later: Option<Moment>)
        ensures
            later == if self.nanos + span.nanos <= u128::MAX {
                Some(Moment { nanos: (self.nanos + span.nanos) as u128 })
            } else {
                None
            },
    {
        match self.nanos.checked_add(span.nanos) {
            Some(nanos) => Some(Moment { nanos }),
            None => None,
        }
    }
}

impl Stamp {
    /// The time from `earlier` to `self`; nothing if `earlier` is in fact the
    /// later of the two. The difference of two stamps always fits a `Span`.
    pub open spec fn spec_since(self, earlier: Stamp) -> Option<Span> {
        if earlier.nanos <= self.nanos {
            Some(Span { nanos: (self.nanos - earlier.nanos) as u128 })
        } else {
            None
        }
    }

    /// The time that has passed from `earlier` to `self`, or `None` where
    /// `earlier` lies after `self` (a clock that was set back).
    pub fn since(self, earlier: Stamp) -> (passed: Option<Span>)
        ensures
            passed == self.spec_since(earlier),
    {
        if earlier.nanos > self.nanos {
            None
        } else if earlier.nanos >= 0 || self.nanos < 0 {
            // Same side of the epoch: the difference cannot leave the range.
            let gap: i128 = self.nanos - earlier.nanos;
            Some(Span { nanos: gap as u128 })
        } else {
            // `earlier` before the epoch, `self` at or after it.
            let before: u128 = (-(earlier.nanos + 1)) as u128;
            let after: u128 = self.nanos as u128;
            Some(Span { nanos: after + before + 1 })
        }
    }
}

} // verus!
