//! Time as the session logic sees it.
//!
//! A point in time is a count of nanoseconds on a monotonic clock whose origin
//! the caller picks once. The logic never reads a clock itself: each event is
//! handed over together with the time at which it was observed.

use vstd::prelude::*;

verus! {

/// Length of every measurement window: five seconds.
pub const WINDOW_NANOS: u64 = 5_000_000_000;

/// Time gone by between `start` and `now`, zero where `now` lies before `start`.
pub open spec fn elapsed_between(start: u64, now: u64) -> nat {
    if now >= start {
        (now - start) as nat
    } else {
        0
    }
}

/// A send or receive phase that began at `start` is still running at `now`:
/// less than a full window has gone by.
pub open spec fn phase_running(start: u64, now: u64) -> bool {
    elapsed_between(start, now) < WINDOW_NANOS
}

/// The last instant, as an unbounded integer, at which an upload registered
/// at `registered` still counts incoming bytes.
pub open spec fn deadline_of(registered: u64) -> int {
    registered + WINDOW_NANOS
}

/// Nanoseconds from `start` to `now`, saturating at zero.
pub fn elapsed(start: u64, now: u64) -> (d: u64)
    ensures
        d == elapsed_between(start, now),
{
    if now >= start {
        now - start
    } else {
        0
    }
}

/// Whether a phase begun at `start` may start another operation at `now`.
pub fn window_open(start: u64, now: u64) -> (open: bool)
    ensures
        open == phase_running(start, now),
        open <==> now < start + WINDOW_NANOS,
{
    elapsed(start, now) < WINDOW_NANOS
}

/// Whether an upload registered at `registered` has expired at `now`, that
/// is, whether `now` lies after its deadline.
pub fn past_deadline(registered: u64, now: u64) -> (expired: bool)
    ensures
        expired <==> now > deadline_of(registered),
{
    elapsed(registered, now) > WINDOW_NANOS
}

} // verus!
