//! Timing of named operations. The caller reads a monotonic clock in
//! nanoseconds and prints the report line; this module decides what the
//! elapsed time is and whether it counts as slow.

use vstd::prelude::*;

verus! {

/// An operation taking this long or longer is reported as slow (100 ms).
pub const SLOW_THRESHOLD_NS: u64 = 100_000_000;

/// Waiting this long or longer for the database lock is reported (50 ms).
pub const LOCK_WAIT_THRESHOLD_NS: u64 = 50_000_000;

/// A running timer for the operation `name`, started at `start_ns`.
#[derive(Debug, Clone, PartialEq, Eq)]
pub struct ScopedTimer {
    pub name: String,
    pub start_ns: u64,
}

/// Time from `start` to `now`; a clock that went backwards counts as none.
pub open spec fn spec_elapsed(start: u64, now: u64) -> u64 {
    if now >= start {
        (now - start) as u64
    } else {
        0
    }
}

impl ScopedTimer {
    /// A timer for `name` started at `now_ns`.
    pub fn new(name: String, now_ns: u64) -> (r: Self)
        ensures
            r.name == name,
            r.start_ns == now_ns,
    {
        ScopedTimer { name, start_ns: now_ns }
    }

    /// Nanoseconds since the start.
    pub fn elapsed_ns(&self, now_ns: u64) -> (r: u64)
        ensures
            r == spec_elapsed(self.start_ns, now_ns),
    {
        if now_ns >= self.start_ns {
            now_ns - self.start_ns
        } else {
            0
        }
    }

    /// The operation has taken 100 ms or more.
    pub fn is_slow(&self, now_ns: u64) -> (r: bool)
        ensures
            r == (spec_elapsed(self.start_ns, now_ns) >= SLOW_THRESHOLD_NS),
    {
        self.elapsed_ns(now_ns) >= SLOW_THRESHOLD_NS
    }
}

/// A wait of `wait_ns` for the database lock is long enough to report.
pub fn lock_wait_is_long(wait_ns: u64) -> (r: bool)
    ensures
        r == (wait_ns >= LOCK_WAIT_THRESHOLD_NS),
{
    wait_ns >= LOCK_WAIT_THRESHOLD_NS
}

} // verus!
