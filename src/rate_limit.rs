//! A gate that spaces dispatches to the translation service evenly in time.
use vstd::prelude::*;

verus! {

pub const NANOS_PER_SEC: u64 = 1_000_000_000;

/// The spacing, in nanoseconds, for a rate of `max_per_sec` dispatches per
/// second; rates below one count as one.
pub open spec fn interval_for(max_per_sec: u32) -> u64 {
    let rate: u64 = if max_per_sec < 1 {
        1
    } else {
        max_per_sec as u64
    };
    (NANOS_PER_SEC / rate) as u64
}

/// Times are nanoseconds on a clock that only moves forward, chosen by the
/// caller.
pub struct RateLimiter {
    interval: u64,
    last: Option<u64>,
}

impl RateLimiter {
    /// Minimum spacing between two dispatches, in nanoseconds.
    pub closed spec fn spec_interval(&self) -> u64 {
        self.interval
    }

    /// Time of the latest dispatch, if any.
    pub closed spec fn spec_last(&self) -> Option<u64> {
        self.last
    }

    /// When a caller that arrives at `now` is let through.
    pub open spec fn dispatch_time(&self, now: u64) -> u64 {
        match self.spec_last() {
            None => now,
            Some(l) => if now >= l + self.spec_interval() {
                now
            } else {
                (l + self.spec_interval()) as u64
            },
        }
    }

    /// A gate for `max_per_sec` dispatches per second, that lets its first
    /// caller through at once.
    pub fn new(max_per_sec: u32) -> (r: RateLimiter)
        ensures
            r.spec_interval() == interval_for(max_per_sec),
            r.spec_last() is None,
    {
        let safe_max: u32 = if max_per_sec < 1 {
            1
        } else {
            max_per_sec
        };
        RateLimiter { interval: NANOS_PER_SEC / safe_max as u64, last: None }
    }

    pub fn interval(&self) -> (r: u64)
        ensures
            r == self.spec_interval(),
    {
        self.interval
    }

    pub fn last(&self) -> (r: Option<u64>)
        ensures
            r == self.spec_last(),
    {
        self.last
    }

    /// Admits a caller that arrives at `now`: records its dispatch, at least
    /// one interval after the previous one, and returns how long the caller
    /// must sleep before it dispatches.
    pub fn wait(&mut self, now: u64) -> (delay: u64)
        requires
            old(self).spec_last() matches Some(l) ==> l + old(self).spec_interval() <= u64::MAX,
        ensures
            final(self).spec_interval() == old(self).spec_interval(),
            final(self).spec_last() == Some(old(self).dispatch_time(now)),
            delay == old(self).dispatch_time(now) - now,
    {
        let at = match self.last {
            None => now,
            Some(l) => {
                let due = l + self.interval;
                if now >= due {
                    now
                } else {
                    due
                }
            },
        };
        self.last = Some(at);
        at - now
    }
}

/// Consecutive dispatches through one gate are at least an interval apart,
/// and none happens before its caller arrived.
pub proof fn dispatches_are_spaced(gate: RateLimiter, now: u64)
    requires
        gate.spec_last() matches Some(l) ==> l + gate.spec_interval() <= u64::MAX,
    ensures
        gate.dispatch_time(now) >= now,
        gate.spec_last() matches Some(l) ==> gate.dispatch_time(now) >= l + gate.spec_interval(),
{
}

} // verus!
