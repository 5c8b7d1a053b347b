//! Fixed-window request throttling: a quota of requests per duration,
//! counted in a window that resets when the duration has elapsed.
//! Bursts at a window boundary are accepted by design — that is the
//! known imprecision of a fixed window against a sliding one. The
//! caller that shares one limiter across requests guards it with its
//! own mutual exclusion; here every step is a whole transition.

use vstd::prelude::*;

use crate::errors::AppError;

verus! {

pub struct RateLimiter {
    pub quota: u64,
    pub duration: u64,
    pub count: u64,
    pub window_start: u64,
}

impl RateLimiter {
    /// The configured duration has elapsed since the window opened.
    pub open spec fn spec_window_elapsed(self, now: u64) -> bool {
        now >= self.window_start && now - self.window_start >= self.duration
    }

    /// The counter after one request at `now`: one in a fresh window,
    /// otherwise one more (the counter saturates rather than wraps).
    pub open spec fn spec_count_after(self, now: u64) -> int {
        if self.spec_window_elapsed(now) {
            1
        } else if self.count < u64::MAX {
            self.count + 1
        } else {
            self.count as int
        }
    }

    pub fn new(quota: u64, duration: u64, now: u64) -> (r: RateLimiter)
        ensures
            r.quota == quota,
            r.duration == duration,
            r.count == 0,
            r.window_start == now,
    {
        RateLimiter { quota, duration, count: 0, window_start: now }
    }

    /// Account one request at `now`: reset the window if it has
    /// elapsed, count the request, and pass it exactly when the count
    /// stays within the quota.
    pub fn check(&mut self, now: u64) -> (r: Result<(), AppError>)
        ensures
            final(self).quota == old(self).quota,
            final(self).duration == old(self).duration,
            final(self).window_start == if old(self).spec_window_elapsed(now) {
                now
            } else {
                old(self).window_start
            },
            final(self).count == old(self).spec_count_after(now),
            r is Ok <==> old(self).spec_count_after(now) <= old(self).quota,
            r matches Err(e) ==> e == AppError::RateLimitExceeded,
    {
        if now >= self.window_start && now - self.window_start >= self.duration {
            self.window_start = now;
            self.count = 0;
        }
        if self.count < u64::MAX {
            self.count = self.count + 1;
        }
        if self.count <= self.quota {
            Ok(())
        } else {
            Err(AppError::RateLimitExceeded)
        }
    }
}

} // verus!
