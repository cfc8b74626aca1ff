//! The pace of a wait: what its driver does between two passes.

use crate::time::Span;
use vstd::prelude::*;

verus! {

/// What the driver of a wait does once a pass is over.
#[derive(Clone, Copy, Debug, PartialEq, Eq, Structural)]
pub enum Pace {
    /// The condition is met: the wait is over.
    Done,
    /// Sleep this long, then start the next pass.
    Sleep(Span),
    /// Start the next pass at once.
    Again,
}

/// The pace after a pass that took `loop_time`, where passes are to start
/// every `interval`: the rest of the interval is slept, and a pass that took
/// the whole interval or more is followed by the next at once.
pub open spec fn pace_after(met: bool, interval: Span, loop_time: Span) -> Pace {
    if met {
        Pace::Done
    } else if interval.nanos > loop_time.nanos {
        Pace::Sleep(Span { nanos: (interval.nanos - loop_time.nanos) as u128 })
    } else {
        Pace::Again
    }
}

/// Decides what follows a pass: `met` is what the pass came to, `interval`
/// the time from the start of one pass to the start of the next, and
/// `loop_time` the time that the pass took.
pub fn pace(met: bool, interval: Span, loop_time: Span) -> (next: Pace)
    ensures
        next == pace_after(met, interval, loop_time),
{
    if met {
        Pace::Done
    } else if interval.nanos > loop_time.nanos {
        Pace::Sleep(Span { nanos: interval.nanos - loop_time.nanos })
    } else {
        Pace::Again
    }
}

/// A sleep never runs past the start of the next pass, and never lasts no
/// time at all.
pub proof fn lemma_sleep_fills_interval(interval: Span, loop_time: Span)
    ensures
        pace_after(false, interval, loop_time) matches Pace::Sleep(rest) ==> 0 < rest.nanos
            && loop_time.nanos + rest.nanos == interval.nanos,
        pace_after(false, interval, loop_time) is Again <==> loop_time.nanos >= interval.nanos,
        pace_after(false, interval, loop_time) !is Done,
{
}

} // verus!
