//! Per-host counters: replies, non-reply-type packets, timeouts, and
//! cumulative / minimum / maximum round-trip latency in microseconds.
//!
//! A fresh window starts with every counter at zero and the latency minimum
//! at its "no samples" sentinel (`u64::MAX`). Counters wrap on overflow, as
//! plain 64-bit adds.

use vstd::prelude::*;

verus! {

/// Addition on `u64` that wraps around on overflow.
pub open spec fn wrap_add_u64(a: u64, b: u64) -> u64 {
    if a + b > u64::MAX {
        (a + b - 0x1_0000_0000_0000_0000) as u64
    } else {
        (a + b) as u64
    }
}

/// Live counters for one host within the current statistics window.
pub struct Stats {
    pub reply: u64,
    pub non_reply: u64,
    pub timeout: u64,
    pub time_sum_us: u64,
    pub time_min_us: u64,
    pub time_max_us: u64,
}

/// Counters drained out of a [`Stats`] when a window closes.
pub struct StatsSnapShot {
    pub reply: u64,
    pub non_reply: u64,
    pub timeout: u64,
    pub time_sum_us: u64,
    pub time_min_us: u64,
    pub time_max_us: u64,
}

/// The state every window starts from: all counters zero, latency minimum at
/// its sentinel.
pub open spec fn fresh_stats() -> Stats {
    Stats {
        reply: 0,
        non_reply: 0,
        timeout: 0,
        time_sum_us: 0,
        time_min_us: u64::MAX,
        time_max_us: 0,
    }
}

/// The stats after one observed latency of `micros` was filed into the
/// reply bucket.
pub open spec fn stats_after_reply(s: Stats, micros: u64) -> Stats {
    Stats {
        reply: wrap_add_u64(s.reply, 1),
        non_reply: s.non_reply,
        timeout: s.timeout,
        time_sum_us: wrap_add_u64(s.time_sum_us, micros),
        time_min_us: if micros < s.time_min_us {
            micros
        } else {
            s.time_min_us
        },
        time_max_us: if micros > s.time_max_us {
            micros
        } else {
            s.time_max_us
        },
    }
}

/// The stats after one observed latency of `micros` was filed into the
/// non-reply-type bucket.
pub open spec fn stats_after_non_reply(s: Stats, micros: u64) -> Stats {
    Stats {
        reply: s.reply,
        non_reply: wrap_add_u64(s.non_reply, 1),
        timeout: s.timeout,
        time_sum_us: wrap_add_u64(s.time_sum_us, micros),
        time_min_us: if micros < s.time_min_us {
            micros
        } else {
            s.time_min_us
        },
        time_max_us: if micros > s.time_max_us {
            micros
        } else {
            s.time_max_us
        },
    }
}

/// The stats after one inferred timeout.
pub open spec fn stats_after_timeout(s: Stats) -> Stats {
    Stats { timeout: wrap_add_u64(s.timeout, 1), ..s }
}

/// The snapshot that reading `s` produces.
pub open spec fn snapshot_of(s: Stats) -> StatsSnapShot {
    StatsSnapShot {
        reply: s.reply,
        non_reply: s.non_reply,
        timeout: s.timeout,
        time_sum_us: s.time_sum_us,
        time_min_us: s.time_min_us,
        time_max_us: s.time_max_us,
    }
}

impl Stats {
    /// Counters for a fresh window.
    pub fn new() -> (r: Stats)
        ensures
            r == fresh_stats(),
    {
        Stats {
            reply: 0,
            timeout: 0,
            non_reply: 0,
            time_sum_us: 0,
            time_min_us: u64::MAX,
            time_max_us: 0,
        }
    }

    /// Atomically (relative to the caller's lock) read every counter and
    /// reset it for the next window.
    pub fn zero_extract(&mut self) -> (r: StatsSnapShot)
        ensures
            r == snapshot_of(*old(self)),
            *final(self) == fresh_stats(),
    {
        let r = StatsSnapShot {
            reply: self.reply,
            non_reply: self.non_reply,
            timeout: self.timeout,
            time_sum_us: self.time_sum_us,
            time_min_us: self.time_min_us,
            time_max_us: self.time_max_us,
        };
        self.reply = 0;
        self.non_reply = 0;
        self.timeout = 0;
        self.time_sum_us = 0;
        self.time_min_us = u64::MAX;
        self.time_max_us = 0;
        r
    }

    /// File a matched reply's round-trip latency.
    pub fn update_micros_working(&mut self, micros: u64)
        ensures
            *final(self) == stats_after_reply(*old(self), micros),
    {
        self.reply = self.reply.wrapping_add(1);
        self.time_sum_us = self.time_sum_us.wrapping_add(micros);
        if micros < self.time_min_us {
            self.time_min_us = micros;
        }
        if micros > self.time_max_us {
            self.time_max_us = micros;
        }
    }

    /// File the latency of a packet whose ICMP type was not an echo reply.
    pub fn update_micros_non_reply(&mut self, micros: u64)
        ensures
            *final(self) == stats_after_non_reply(*old(self), micros),
    {
        self.non_reply = self.non_reply.wrapping_add(1);
        self.time_sum_us = self.time_sum_us.wrapping_add(micros);
        if micros < self.time_min_us {
            self.time_min_us = micros;
        }
        if micros > self.time_max_us {
            self.time_max_us = micros;
        }
    }

    /// Count one request that never got a matching reply.
    pub fn update_fail(&mut self)
        ensures
            *final(self) == stats_after_timeout(*old(self)),
    {
        self.timeout = self.timeout.wrapping_add(1);
    }
}

impl StatsSnapShot {
    /// Whether any latency sample was observed in the window; a snapshot
    /// without samples renders as `NA` latency cells.
    pub fn has_samples(&self) -> (r: bool)
        ensures
            r == (self.reply > 0 || self.non_reply > 0),
    {
        self.reply > 0 || self.non_reply > 0
    }

    /// Average latency in microseconds over both latency buckets, or `None`
    /// when the window holds no samples.
    pub fn avg_us(&self) -> (r: Option<u64>)
        ensures
            self.reply + self.non_reply > u64::MAX ==> r is None,
            self.reply + self.non_reply == 0 ==> r is None,
            (0 < self.reply + self.non_reply <= u64::MAX) ==> r == Some(
                (self.time_sum_us as int / (self.reply + self.non_reply)) as u64,
            ),
    {
        match self.reply.checked_add(self.non_reply) {
            None => None,
            Some(n) => {
                if n == 0 {
                    None
                } else {
                    Some(self.time_sum_us / n)
                }
            },
        }
    }
}

} // verus!
