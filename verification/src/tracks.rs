//! The host tracking table: the correlation and timeout-detection state
//! machine.
//!
//! One entry per configured host, built once before any probing starts and
//! never grown or shrunk afterwards. A send records the sequence and time
//! and raises the outstanding-request flag; a receive looks the source
//! address up, files the observed latency and clears the flag; a send that
//! finds the flag still raised infers that the previous request timed out.
//! Timestamps are microseconds on the caller's monotonic clock.

use crate::cli::{Config, HostAddress, HostInfo};
use crate::stats::{
    fresh_stats, snapshot_of, stats_after_non_reply, stats_after_reply, stats_after_timeout,
    wrap_add_u64, Stats, StatsSnapShot,
};
use vstd::prelude::*;

verus! {

/// Tracking state for one monitored host.
pub struct TrackPerHost {
    /// Label and address; the address is the correlation key.
    pub host: HostInfo,
    /// When the last request was sent, microseconds.
    pub last_time: Option<u64>,
    /// Echo identifier assigned to this host.
    pub ident: u16,
    /// Sequence number of the last request sent.
    pub last_seq: Option<u16>,
    /// True when the last request has been answered; cleared on send,
    /// raised on receive.
    pub mark: bool,
    /// Counters for the current statistics window.
    pub stats: Stats,
}

/// The tracking table, in configuration order.
pub struct Tracks {
    pub hosts: Vec<TrackPerHost>,
}

/// One precomputed send-round item: which host, its identifier, and when
/// the packet actually left.
#[derive(Clone, Copy, Debug, PartialEq, Eq, Structural)]
pub struct UpdateSendIteration {
    pub ident: u16,
    pub ip: HostAddress,
    pub now: u64,
}

/// Two configured hosts share one address.
#[derive(Clone, Copy, Debug, PartialEq, Eq, Structural)]
pub struct DuplicateIp(pub HostAddress);

/// Entries carry pairwise distinct addresses.
pub open spec fn wf_hosts(s: Seq<TrackPerHost>) -> bool {
    forall|i: int, j: int| 0 <= i < j < s.len() ==> s[i].host.ip != s[j].host.ip
}

/// Some entry has this address.
pub open spec fn has_ip(s: Seq<TrackPerHost>, ip: HostAddress) -> bool {
    exists|i: int| 0 <= i < s.len() && s[i].host.ip == ip
}

/// The index of the entry with this address (unique under `wf_hosts`).
pub open spec fn ip_index(s: Seq<TrackPerHost>, ip: HostAddress) -> int {
    choose|i: int| 0 <= i < s.len() && s[i].host.ip == ip
}

/// The state an entry starts in: nothing sent yet, fresh counters.
pub open spec fn fresh_entry(h: HostInfo, ident: u16) -> TrackPerHost {
    TrackPerHost {
        host: h,
        last_time: None,
        ident,
        last_seq: None,
        mark: false,
        stats: fresh_stats(),
    }
}

/// An entry after a send at `now` with sequence `seq`: if the previous
/// request was still unanswered, its timeout is counted now; the new
/// request becomes the outstanding one.
pub open spec fn send_applied(e: TrackPerHost, now: u64, seq: u16) -> TrackPerHost {
    TrackPerHost {
        host: e.host,
        last_time: Some(now),
        ident: e.ident,
        last_seq: Some(seq),
        mark: false,
        stats: if !e.mark && e.last_seq is Some {
            stats_after_timeout(e.stats)
        } else {
            e.stats
        },
    }
}

/// An entry after a receive with observed latency `micros`: the latency is
/// filed (into the reply or non-reply bucket) and the outstanding request
/// is considered answered.
pub open spec fn recv_applied(e: TrackPerHost, micros: u64, is_reply: bool) -> TrackPerHost {
    TrackPerHost {
        mark: true,
        stats: if is_reply {
            stats_after_reply(e.stats, micros)
        } else {
            stats_after_non_reply(e.stats, micros)
        },
        ..e
    }
}

/// An entry after its counters were drained into a snapshot.
pub open spec fn reset_applied(e: TrackPerHost) -> TrackPerHost {
    TrackPerHost { stats: fresh_stats(), ..e }
}

/// The configured host list names one address twice.
pub open spec fn has_duplicate_ip(v: Seq<HostInfo>) -> bool {
    exists|i: int, j: int| 0 <= i < j < v.len() && v[i].ip == v[j].ip
}

/// Host `k`'s address already appears among the hosts before it.
pub open spec fn dup_in_prefix(v: Seq<HostInfo>, k: int) -> bool {
    exists|i: int| 0 <= i < k && v[i].ip == v[k].ip
}

/// Some of the first `k` items of a send round target this address.
pub open spec fn ip_in_prefix(v: Seq<UpdateSendIteration>, k: int, ip: HostAddress) -> bool {
    exists|x: int| 0 <= x < k && v[x].ip == ip
}

impl Tracks {
    /// The table invariant: addresses are pairwise distinct.
    pub open spec fn wf(self) -> bool {
        wf_hosts(self.hosts@)
    }

    /// Build the table from the configuration, one fresh entry per host in
    /// configuration order, identifiers assigned from `ident_base` upward
    /// (wrapping at 16 bits). A duplicated address is a configuration
    /// error.
    pub fn new(cfg: &Config) -> (r: Result<Tracks, DuplicateIp>)
        ensures
            r is Ok <==> !has_duplicate_ip(cfg.ips@),
            (match r {
                Ok(t) => {
                    &&& t.wf()
                    &&& t.hosts@.len() == cfg.ips@.len()
                    &&& forall|i: int|
                        0 <= i < cfg.ips@.len() ==> #[trigger] t.hosts@[i] == fresh_entry(
                            cfg.ips@[i],
                            ((cfg.ident_base + i) % 0x10000) as u16,
                        )
                },
                Err(d) => exists|k: int|
                    0 <= k < cfg.ips@.len() && #[trigger] dup_in_prefix(cfg.ips@, k)
                        && cfg.ips@[k].ip == d.0 && (forall|m: int|
                        0 <= m < k ==> !dup_in_prefix(cfg.ips@, m)),
            }),
    {
        let mut ident: u16 = cfg.ident_base;
        let mut hosts: Vec<TrackPerHost> = Vec::new();
        let n: usize = cfg.ips.len();
        let mut k: usize = 0;
        while k < n
            invariant
                n == cfg.ips@.len(),
                k <= n,
                hosts@.len() == k,
                ident as int == (cfg.ident_base + k) % 0x10000,
                forall|i: int|
                    0 <= i < k ==> #[trigger] hosts@[i] == fresh_entry(
                        cfg.ips@[i],
                        ((cfg.ident_base + i) % 0x10000) as u16,
                    ),
                forall|i: int, j: int| 0 <= i < j < k ==> cfg.ips@[i].ip != cfg.ips@[j].ip,
            decreases n - k,
        {
            let mut m: usize = 0;
            while m < k
                invariant
                    m <= k,
                    k < n,
                    n == cfg.ips@.len(),
                    forall|i: int| 0 <= i < m ==> cfg.ips@[i].ip != cfg.ips@[k as int].ip,
                    forall|i: int, j: int| 0 <= i < j < k ==> cfg.ips@[i].ip != cfg.ips@[j].ip,
                decreases k - m,
            {
                if cfg.ips[m].ip == cfg.ips[k].ip {
                    proof {
                        assert(0 <= m < k && cfg.ips@[m as int].ip == cfg.ips@[k as int].ip);
                        assert(dup_in_prefix(cfg.ips@, k as int));
                        assert forall|m2: int| 0 <= m2 < k implies !dup_in_prefix(
                            cfg.ips@,
                            m2,
                        ) by {
                            if dup_in_prefix(cfg.ips@, m2) {
                                let i0 = choose|i: int|
                                    0 <= i < m2 && cfg.ips@[i].ip == cfg.ips@[m2].ip;
                                assert(cfg.ips@[i0].ip == cfg.ips@[m2].ip);
                                assert(false);
                            }
                        }
                    }
                    return Err(DuplicateIp(cfg.ips[k].ip));
                }
                m = m + 1;
            }
            let host = cfg.ips[k].duplicate();
            hosts.push(
                TrackPerHost {
                    host,
                    last_time: None,
                    ident,
                    last_seq: None,
                    mark: false,
                    stats: Stats::new(),
                },
            );
            ident = ident.wrapping_add(1);
            k = k + 1;
        }
        let t = Tracks { hosts };
        proof {
            assert forall|i: int, j: int| 0 <= i < j < t.hosts@.len() implies t.hosts@[i].host.ip
                != t.hosts@[j].host.ip by {
                assert(t.hosts@[i] == fresh_entry(
                    cfg.ips@[i],
                    ((cfg.ident_base + i) % 0x10000) as u16,
                ));
                assert(t.hosts@[j] == fresh_entry(
                    cfg.ips@[j],
                    ((cfg.ident_base + j) % 0x10000) as u16,
                ));
            }
        }
        Ok(t)
    }

    /// The position of the entry with this address, if any.
    fn find_ip(&self, ip: HostAddress) -> (r: Option<usize>)
        ensures
            (match r {
                Some(i) => i < self.hosts@.len() && self.hosts@[i as int].host.ip == ip,
                None => !has_ip(self.hosts@, ip),
            }),
    {
        let n: usize = self.hosts.len();
        let mut i: usize = 0;
        while i < n
            invariant
                n == self.hosts@.len(),
                i <= n,
                forall|j: int| 0 <= j < i ==> self.hosts@[j].host.ip != ip,
            decreases n - i,
        {
            if self.hosts[i].host.ip == ip {
                return Some(i);
            }
            i = i + 1;
        }
        None
    }

    /// Record a received reply from `ip` at time `now`. Returns false —
    /// touching nothing — when the source address is not monitored.
    /// Otherwise the observed latency (`now` minus the entry's last send
    /// time) is filed into the bucket named by `is_reply`, the outstanding
    /// request is marked answered, and true is returned, whether or not
    /// the identifier and sequence match the entry's; callers log such
    /// mismatches.
    pub fn update_for_recv(
        &mut self,
        ip: HostAddress,
        now: u64,
        ident: u16,
        seq: u16,
        is_reply: bool,
    ) -> (r: bool)
        requires
            old(self).wf(),
            has_ip(old(self).hosts@, ip) ==> ({
                let e = old(self).hosts@[ip_index(old(self).hosts@, ip)];
                &&& e.last_seq is Some
                &&& e.last_time is Some
                &&& e.last_time->0 <= now
            }),
        ensures
            final(self).wf(),
            r == has_ip(old(self).hosts@, ip),
            !r ==> *final(self) == *old(self),
            r ==> ({
                let i = ip_index(old(self).hosts@, ip);
                let e = old(self).hosts@[i];
                final(self).hosts@ == old(self).hosts@.update(
                    i,
                    recv_applied(e, (now - e.last_time->0) as u64, is_reply),
                )
            }),
    {
        match self.find_ip(ip) {
            None => false,
            Some(i) => {
                proof {
                    let j = ip_index(self.hosts@, ip);
                    assert(has_ip(self.hosts@, ip));
                    assert(0 <= j < self.hosts@.len() && self.hosts@[j].host.ip == ip);
                    assert(i as int == j);
                }
                let entry = &mut self.hosts[i];
                let last_time = match entry.last_time {
                    Some(t) => t,
                    None => {
                        proof {
                            assert(false);
                        }
                        0
                    },
                };
                let micros = now - last_time;
                if is_reply {
                    entry.stats.update_micros_working(micros);
                } else {
                    entry.stats.update_micros_non_reply(micros);
                }
                entry.mark = true;
                true
            },
        }
    }

    /// Record that a request with sequence `seq` was sent to `ip` at time
    /// `now`. If the previous request was never answered — the entry is
    /// still awaiting a reply — that timeout is counted now, exactly once.
    /// Returns whether the previous request had been answered.
    pub fn update_for_send(&mut self, ip: HostAddress, now: u64, _ident: u16, seq: u16) -> (r:
        bool)
        requires
            old(self).wf(),
            has_ip(old(self).hosts@, ip),
        ensures
            final(self).wf(),
            ({
                let i = ip_index(old(self).hosts@, ip);
                let e = old(self).hosts@[i];
                r == e.mark && final(self).hosts@ == old(self).hosts@.update(
                    i,
                    send_applied(e, now, seq),
                )
            }),
    {
        let i = match self.find_ip(ip) {
            Some(i) => i,
            None => {
                proof {
                    assert(false);
                }
                0
            },
        };
        proof {
            let j = ip_index(self.hosts@, ip);
            assert(has_ip(self.hosts@, ip));
            assert(0 <= j < self.hosts@.len() && self.hosts@[j].host.ip == ip);
            assert(i as int == j);
        }
        let entry = &mut self.hosts[i];
        let last_mark = entry.mark;
        if !entry.mark && entry.last_seq.is_some() {
            entry.stats.update_fail();
        }
        entry.last_seq = Some(seq);
        entry.last_time = Some(now);
        entry.mark = false;
        last_mark
    }

    /// Record one whole send round: every item's host gets the round's
    /// sequence number and its own send time, with the same timeout
    /// inference as a single send. Items target pairwise distinct,
    /// monitored addresses; entries outside the round are untouched.
    pub fn update_for_send_bulk(&mut self, v: &Vec<UpdateSendIteration>, seq: u16)
        requires
            old(self).wf(),
            forall|x: int| 0 <= x < v@.len() ==> has_ip(old(self).hosts@, #[trigger] v@[x].ip),
            forall|x: int, y: int| 0 <= x < y < v@.len() ==> v@[x].ip != v@[y].ip,
        ensures
            final(self).wf(),
            final(self).hosts@.len() == old(self).hosts@.len(),
            forall|j: int|
                0 <= j < old(self).hosts@.len() && !ip_in_prefix(
                    v@,
                    v@.len() as int,
                    old(self).hosts@[j].host.ip,
                ) ==> final(self).hosts@[j] == #[trigger] old(self).hosts@[j],
            forall|j: int, x: int|
                0 <= j < old(self).hosts@.len() && 0 <= x < v@.len() && #[trigger] v@[x].ip
                    == #[trigger] old(self).hosts@[j].host.ip ==> final(self).hosts@[j]
                    == send_applied(old(self).hosts@[j], v@[x].now, seq),
    {
        let n: usize = v.len();
        let mut k: usize = 0;
        while k < n
            invariant
                self.wf(),
                n == v@.len(),
                k <= n,
                self.hosts@.len() == old(self).hosts@.len(),
                forall|x: int| 0 <= x < v@.len() ==> has_ip(old(self).hosts@, #[trigger] v@[x].ip),
                forall|x: int, y: int| 0 <= x < y < v@.len() ==> v@[x].ip != v@[y].ip,
                forall|j: int|
                    0 <= j < old(self).hosts@.len() ==> #[trigger] self.hosts@[j].host.ip == old(
                        self,
                    ).hosts@[j].host.ip,
                forall|j: int|
                    0 <= j < old(self).hosts@.len() && !ip_in_prefix(
                        v@,
                        k as int,
                        old(self).hosts@[j].host.ip,
                    ) ==> self.hosts@[j] == #[trigger] old(self).hosts@[j],
                forall|j: int, x: int|
                    0 <= j < old(self).hosts@.len() && 0 <= x < k && #[trigger] v@[x].ip
                        == #[trigger] old(self).hosts@[j].host.ip ==> self.hosts@[j]
                        == send_applied(old(self).hosts@[j], v@[x].now, seq),
            decreases n - k,
        {
            let it = &v[k];
            proof {
                assert(has_ip(old(self).hosts@, v@[k as int].ip));
                let w = choose|i: int|
                    0 <= i < old(self).hosts@.len() && old(self).hosts@[i].host.ip == v@[k as int].ip;
                assert(self.hosts@[w].host.ip == v@[k as int].ip);
                assert(has_ip(self.hosts@, v@[k as int].ip));
            }
            let ghost pre = self.hosts@;
            self.update_for_send(it.ip, it.now, it.ident, seq);
            proof {
                let i = ip_index(pre, v@[k as int].ip);
                assert(0 <= i < pre.len() && pre[i].host.ip == v@[k as int].ip);
                // the updated entry had not been touched by earlier items
                assert(!ip_in_prefix(v@, k as int, old(self).hosts@[i].host.ip));
                assert(pre[i] == old(self).hosts@[i]);
                assert forall|j: int, x: int|
                    0 <= j < old(self).hosts@.len() && 0 <= x < k + 1 && #[trigger] v@[x].ip
                        == #[trigger] old(self).hosts@[j].host.ip implies self.hosts@[j]
                    == send_applied(old(self).hosts@[j], v@[x].now, seq) by {
                    if x == k {
                        assert(j == i);
                    } else {
                        assert(j != i);
                    }
                }
            }
            k = k + 1;
        }
    }

    /// Drain every host's counters into a snapshot, in configuration
    /// order, resetting each for the next window: counters back to zero,
    /// latency minimum back to its no-samples sentinel.
    pub fn snapshot_and_reset(&mut self) -> (r: Vec<(HostInfo, StatsSnapShot)>)
        ensures
            final(self).wf() == old(self).wf(),
            final(self).hosts@.len() == old(self).hosts@.len(),
            r@.len() == old(self).hosts@.len(),
            forall|i: int|
                0 <= i < old(self).hosts@.len() ==> (#[trigger] r@[i]).0 == old(self).hosts@[i].host
                    && r@[i].1 == snapshot_of(old(self).hosts@[i].stats),
            forall|i: int|
                0 <= i < old(self).hosts@.len() ==> #[trigger] final(self).hosts@[i]
                    == reset_applied(old(self).hosts@[i]),
    {
        let mut out: Vec<(HostInfo, StatsSnapShot)> = Vec::new();
        let n: usize = self.hosts.len();
        let mut i: usize = 0;
        while i < n
            invariant
                n == old(self).hosts@.len(),
                self.hosts@.len() == n,
                i <= n,
                out@.len() == i,
                forall|j: int| i <= j < n ==> #[trigger] self.hosts@[j] == old(self).hosts@[j],
                forall|j: int|
                    0 <= j < i ==> #[trigger] self.hosts@[j] == reset_applied(old(self).hosts@[j]),
                forall|j: int|
                    0 <= j < i ==> (#[trigger] out@[j]).0 == old(self).hosts@[j].host && out@[j].1
                        == snapshot_of(old(self).hosts@[j].stats),
            decreases n - i,
        {
            let entry = &mut self.hosts[i];
            let label = entry.host.duplicate();
            let snap = entry.stats.zero_extract();
            out.push((label, snap));
            i = i + 1;
        }
        proof {
            assert forall|i2: int, j2: int|
                0 <= i2 < j2 < final(self).hosts@.len() implies (final(self).hosts@[i2].host.ip
                != final(self).hosts@[j2].host.ip) == (old(self).hosts@[i2].host.ip != old(
                self,
            ).hosts@[j2].host.ip) by {}
        }
        out
    }
}

/// LAW (timeout heuristic, at the table). Starting from a table whose entry
/// for `ip` is still awaiting a reply to an earlier send, the table after a
/// send (as `update_for_send` leaves it) holds exactly one more timeout for
/// that host, and a receive right after (as `update_for_recv` leaves it)
/// leaves that count unchanged: the inferred timeout is counted once.
pub proof fn lemma_table_timeout_counted_once(
    s: Seq<TrackPerHost>,
    ip: HostAddress,
    now1: u64,
    seq1: u16,
    micros: u64,
    is_reply: bool,
)
    requires
        wf_hosts(s),
        has_ip(s, ip),
        !s[ip_index(s, ip)].mark,
        s[ip_index(s, ip)].last_seq is Some,
    ensures
        ({
            let i = ip_index(s, ip);
            let s1 = s.update(i, send_applied(s[i], now1, seq1));
            let s2 = s1.update(
                ip_index(s1, ip),
                recv_applied(s1[ip_index(s1, ip)], micros, is_reply),
            );
            &&& ip_index(s1, ip) == i
            &&& s1[i].stats.timeout == wrap_add_u64(s[i].stats.timeout, 1)
            &&& s2[i].stats.timeout == s1[i].stats.timeout
        }),
{
    let i = ip_index(s, ip);
    assert(0 <= i < s.len() && s[i].host.ip == ip);
    let s1 = s.update(i, send_applied(s[i], now1, seq1));
    assert(s1[i].host.ip == ip);
    assert(has_ip(s1, ip));
    let j = ip_index(s1, ip);
    assert(0 <= j < s1.len() && s1[j].host.ip == ip);
    if j != i {
        // two entries of s would share the address, against wf_hosts
        assert(s[j].host.ip == ip);
        assert(false);
    }
}

/// LAW (timeout heuristic). A send that finds the entry still awaiting a
/// reply from an earlier send counts exactly one timeout; a send that
/// finds the previous request answered, or that is the first send, counts
/// none; and a receive after a send never changes the timeout counter, so
/// the inferred timeout is not double-counted.
pub proof fn lemma_timeout_heuristic(
    e: TrackPerHost,
    now1: u64,
    seq1: u16,
    micros: u64,
    is_reply: bool,
)
    ensures
        (!e.mark && e.last_seq is Some) ==> send_applied(e, now1, seq1).stats.timeout
            == wrap_add_u64(e.stats.timeout, 1),
        (e.mark || e.last_seq is None) ==> send_applied(e, now1, seq1).stats.timeout
            == e.stats.timeout,
        recv_applied(send_applied(e, now1, seq1), micros, is_reply).stats.timeout == send_applied(
            e,
            now1,
            seq1,
        ).stats.timeout,
{
}

} // verus!
