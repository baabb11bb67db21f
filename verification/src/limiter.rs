//! The shared rate limiter that bounds external calls (the checker process
//! and the page fetch) to a fixed ceiling per second. The decision is made
//! here; the wait on a refusal is the application's.

use vstd::prelude::*;

verus! {

/// The shared ceiling: two external operations per second.
pub const DEFAULT_OPS_PER_SECOND: u32 = 2;

/// A fixed-window rate limiter: at most `quota` grants within one second.
pub struct RateLimiter {
    pub quota: u32,
    pub window: i64,
    pub used: u32,
}

impl RateLimiter {
    /// The grant count never passes the ceiling.
    pub open spec fn wf(self) -> bool {
        1 <= self.quota && self.used <= self.quota
    }

    /// A fresh limiter; the first acquisition always succeeds.
    pub fn new(quota: u32) -> (r: RateLimiter)
        requires
            1 <= quota,
        ensures
            r.wf(),
            r.quota == quota,
            r.window == -1i64,
            r.used == 0,
    {
        RateLimiter { quota, window: -1, used: 0 }
    }

    /// Ask for one permit at the given second: a new second opens a fresh
    /// window and grants; within the window, grants are counted and refused
    /// past the quota. A refused caller waits and asks again.
    pub fn try_acquire(&mut self, now: i64) -> (r: bool)
        requires
            old(self).wf(),
            now >= 0,
        ensures
            final(self).wf(),
            final(self).quota == old(self).quota,
            if now != old(self).window {
                r && final(self).window == now && final(self).used == 1
            } else if old(self).used < old(self).quota {
                r && final(self).window == now && final(self).used == old(self).used + 1
            } else {
                !r && *final(self) == *old(self)
            },
    {
        if now != self.window {
            self.window = now;
            self.used = 1;
            true
        } else if self.used < self.quota {
            self.used = self.used + 1;
            true
        } else {
            false
        }
    }
}

} // verus!
