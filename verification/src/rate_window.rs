//! The timing of a rate-limited resource: it may be taken once its deadline
//! has come, and each use pushes the deadline to `delay` after the moment it
//! ends. Times are milliseconds on a monotonic clock.
use vstd::prelude::*;

verus! {

#[derive(Debug, Clone, Copy, PartialEq, Eq, Structural)]
pub struct RateWindow {
    pub deadline: i64,
    pub delay: i64,
}

impl RateWindow {
    /// A resource free from `now` on, spaced out by `delay`.
    pub fn new(now: i64, delay: i64) -> (r: RateWindow)
        ensures r.deadline == now, r.delay == delay,
    {
        RateWindow { deadline: now, delay }
    }

    /// The moment `get` sleeps until before it hands the resource out.
    pub fn ready_at(&self) -> (r: i64)
        ensures r == self.deadline,
    {
        self.deadline
    }

    /// Whether `try_get` hands the resource out at `now` (when its lock is
    /// free): it does exactly when the time elapsed since the deadline,
    /// counted as zero before the deadline, is zero, that is when `now` is no
    /// later than the deadline.
    pub fn try_ready(&self, now: i64) -> (r: bool)
        ensures r == (now <= self.deadline),
    {
        now <= self.deadline
    }

    /// A use ended at `now`: the next may start `delay` later.
    pub fn release(&mut self, now: i64)
        requires now + old(self).delay <= i64::MAX, now + old(self).delay >= i64::MIN,
        ensures final(self).deadline == now + old(self).delay, final(self).delay == old(self).delay,
    {
        self.deadline = now + self.delay;
    }
}

} // verus!
