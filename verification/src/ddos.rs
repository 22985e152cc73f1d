//! Per-address flood protection: an address that makes more requests than
//! a threshold, or whose suspicious-activity score passes 10, is blocked
//! for a while; a block lifts once its time has passed.
use vstd::prelude::*;
use crate::orderbook::bytes_equal;

verus! {

/// Suspicious-activity score above which an address is blocked.
pub const SUSPICION_LIMIT: u32 = 10;

/// Seconds after its last request that an address is forgotten.
pub const ENTRY_LIFETIME_SECONDS: i64 = 86400;

/// What is known of one address.
#[derive(Clone, Copy, Debug, PartialEq, Eq, Structural)]
pub struct IpStats {
    pub request_count: u32,
    /// Time of the last request (seconds)
    pub last_request: i64,
    pub is_blocked: bool,
    pub blocked_until: Option<i64>,
    pub suspicious_activity_score: u32,
}

/// Tracked addresses (bytes of their text) and their statistics, side by side.
pub struct DDoSProtection {
    pub ip_keys: Vec<Vec<u8>>,
    pub ip_stats: Vec<IpStats>,
    /// Requests after which an address is blocked
    pub detection_threshold: u32,
    /// Seconds a block lasts
    pub block_duration: i64,
}

/// Position of an address among the keys, if tracked.
pub open spec fn key_index(keys: Seq<Vec<u8>>, ip: Seq<u8>) -> Option<int>
    decreases keys.len(),
{
    if keys.len() == 0 {
        None
    } else {
        match key_index(keys.drop_last(), ip) {
            Some(i) => Some(i),
            None => if keys.last()@ == ip { Some(keys.len() - 1) } else { None },
        }
    }
}

/// Statistics of an address, if tracked.
pub open spec fn stats_of(p: DDoSProtection, ip: Seq<u8>) -> Option<IpStats> {
    match key_index(p.ip_keys@, ip) {
        Some(i) => Some(p.ip_stats@[i]),
        None => None,
    }
}

/// Statistics of an address seen for the first time at `now`.
pub open spec fn fresh_stats(now: i64) -> IpStats {
    IpStats { request_count: 0, last_request: now, is_blocked: false, blocked_until: None, suspicious_activity_score: 0 }
}

/// Outcome of a request check on an address's statistics: whether it is
/// allowed and the statistics after it. A live block refuses the request
/// untouched; an expired block is lifted; the request is counted, and one
/// over the threshold blocks the address for the block duration.
pub open spec fn check_outcome(s: IpStats, now: i64, threshold: u32, duration: i64) -> (bool, IpStats) {
    if s.is_blocked && (s.blocked_until matches Some(t) && now < t) {
        (false, s)
    } else {
        let unblocked = if s.is_blocked && s.blocked_until is Some { IpStats { is_blocked: false, blocked_until: None, ..s } } else { s };
        let counted = IpStats { request_count: (unblocked.request_count + 1) as u32, last_request: now, ..unblocked };
        if counted.request_count > threshold {
            (false, IpStats { is_blocked: true, blocked_until: Some((now + duration) as i64), ..counted })
        } else {
            (true, counted)
        }
    }
}

/// A check on these statistics stays within the integer ranges.
pub open spec fn check_fits(s: IpStats, now: i64, duration: i64) -> bool {
    s.request_count < u32::MAX && i64::MIN <= now + duration <= i64::MAX
}

/// Addresses kept by a cleanup: those whose last request is after `cutoff`.
pub open spec fn kept_keys(keys: Seq<Vec<u8>>, stats: Seq<IpStats>, cutoff: int) -> Seq<Seq<u8>>
    decreases keys.len(),
{
    if keys.len() == 0 || stats.len() == 0 {
        Seq::empty()
    } else if stats.last().last_request > cutoff {
        kept_keys(keys.drop_last(), stats.drop_last(), cutoff).push(keys.last()@)
    } else {
        kept_keys(keys.drop_last(), stats.drop_last(), cutoff)
    }
}

/// The keys and statistics line up.
pub open spec fn ddos_wf(p: DDoSProtection) -> bool {
    p.ip_keys@.len() == p.ip_stats@.len()
}

/// A found index lies within the keys and names the address.
proof fn lemma_key_index_bound(keys: Seq<Vec<u8>>, ip: Seq<u8>)
    ensures
        key_index(keys, ip) matches Some(i) ==> 0 <= i < keys.len() && keys[i]@ == ip,
    decreases keys.len(),
{
    if keys.len() > 0 {
        lemma_key_index_bound(keys.drop_last(), ip);
    }
}

/// The first match in a prefix is the first match of the whole list.
proof fn lemma_key_index_prefix(keys: Seq<Vec<u8>>, ip: Seq<u8>, n: int)
    requires
        0 <= n <= keys.len(),
        key_index(keys.take(n), ip) is Some,
    ensures
        key_index(keys, ip) == key_index(keys.take(n), ip),
    decreases keys.len(),
{
    if n < keys.len() {
        assert(keys.drop_last().take(n) == keys.take(n));
        lemma_key_index_prefix(keys.drop_last(), ip, n);
    } else {
        assert(keys.take(n) == keys);
    }
}

impl DDoSProtection {
    /// Protection with no addresses tracked, blocking after 1000 requests
    /// for an hour.
    pub fn new() -> (p: Self)
        ensures
            ddos_wf(p),
            p.ip_keys@.len() == 0,
            p.detection_threshold == 1000,
            p.block_duration == 3600,
    {
        DDoSProtection { ip_keys: Vec::new(), ip_stats: Vec::new(), detection_threshold: 1000, block_duration: 3600 }
    }

    /// Position of an address, if tracked.
    fn find(&self, ip: &Vec<u8>) -> (r: Option<usize>)
        ensures
            r matches Some(i) ==> key_index(self.ip_keys@, ip@) == Some(i as int),
            r is None ==> key_index(self.ip_keys@, ip@) is None,
    {
        let mut i: usize = 0;
        while i < self.ip_keys.len()
            invariant
                i <= self.ip_keys@.len(),
                key_index(self.ip_keys@.take(i as int), ip@) is None,
            decreases self.ip_keys@.len() - i,
        {
            proof {
                assert(self.ip_keys@.take(i as int + 1).drop_last() == self.ip_keys@.take(i as int));
            }
            if bytes_equal(&self.ip_keys[i], ip) {
                proof {
                    lemma_key_index_prefix(self.ip_keys@, ip@, i as int + 1);
                }
                return Some(i);
            }
            i = i + 1;
        }
        proof {
            assert(self.ip_keys@.take(self.ip_keys@.len() as int) == self.ip_keys@);
        }
        None
    }

    /// Statistics of an address, if tracked.
    pub fn get_ip_stats(&self, ip: &Vec<u8>) -> (r: Option<IpStats>)
        requires
            ddos_wf(*self),
        ensures
            r == stats_of(*self, ip@),
    {
        match self.find(ip) {
            Some(i) => {
                proof {
                    lemma_key_index_bound(self.ip_keys@, ip@);
                }
                Some(self.ip_stats[i])
            },
            None => None,
        }
    }

    /// Checks a request from an address at `now` (tracking it from now if
    /// new): whether it is allowed, updating the address's statistics.
    pub fn check_ip(&mut self, ip: &Vec<u8>, now: i64) -> (allowed: bool)
        requires
            ddos_wf(*old(self)),
            check_fits(
                match stats_of(*old(self), ip@) {
                    Some(s) => s,
                    None => fresh_stats(now),
                },
                now,
                old(self).block_duration,
            ),
        ensures
            ddos_wf(*final(self)),
            final(self).detection_threshold == old(self).detection_threshold,
            final(self).block_duration == old(self).block_duration,
            ({
                let s = match stats_of(*old(self), ip@) {
                    Some(s) => s,
                    None => fresh_stats(now),
                };
                let (ok, after) = check_outcome(s, now, old(self).detection_threshold, old(self).block_duration);
                &&& allowed == ok
                &&& stats_of(*final(self), ip@) == Some(after)
            }),
            forall|other: Seq<u8>| other != ip@ ==> #[trigger] stats_of(*final(self), other) == stats_of(*old(self), other),
    {
        let idx: usize = match self.find(ip) {
            Some(i) => {
                proof {
                    lemma_key_index_bound(self.ip_keys@, ip@);
                }
                i
            },
            None => {
                let mut key: Vec<u8> = Vec::new();
                let mut k: usize = 0;
                while k < ip.len()
                    invariant
                        k <= ip@.len(),
                        key@ == ip@.take(k as int),
                    decreases ip@.len() - k,
                {
                    key.push(ip[k]);
                    k = k + 1;
                }
                proof {
                    assert(ip@.take(ip@.len() as int) == ip@);
                }
                let ghost keys0 = self.ip_keys@;
                self.ip_keys.push(key);
                self.ip_stats.push(IpStats { request_count: 0, last_request: now, is_blocked: false, blocked_until: None, suspicious_activity_score: 0 });
                proof {
                    assert(self.ip_keys@.drop_last() == keys0);
                    assert forall|other: Seq<u8>| other != ip@ implies #[trigger] key_index(self.ip_keys@, other) == key_index(keys0, other) by {
                        assert(self.ip_keys@.drop_last() == keys0);
                    }
                }
                self.ip_keys.len() - 1
            },
        };
        let ghost mid = *self;
        proof {
            assert forall|other: Seq<u8>| other != ip@ implies #[trigger] stats_of(mid, other) == stats_of(*old(self), other) by {
                lemma_key_index_bound(old(self).ip_keys@, other);
                if key_index(old(self).ip_keys@, ip@) is None {
                    assert(mid.ip_keys@.drop_last() == old(self).ip_keys@);
                    assert(mid.ip_stats@.drop_last() == old(self).ip_stats@);
                    if key_index(old(self).ip_keys@, other) is Some {
                        let j = key_index(old(self).ip_keys@, other)->0;
                        assert(mid.ip_stats@[j] == old(self).ip_stats@[j]);
                    }
                }
            }
        }
        let s = self.ip_stats[idx];
        if s.is_blocked {
            match s.blocked_until {
                Some(t) => {
                    if now < t {
                        return false;
                    }
                },
                None => {},
            }
        }
        let mut st = s;
        if st.is_blocked && st.blocked_until.is_some() {
            st.is_blocked = false;
            st.blocked_until = None;
        }
        st.request_count = st.request_count + 1;
        st.last_request = now;
        let mut allowed = true;
        if st.request_count > self.detection_threshold {
            st.is_blocked = true;
            st.blocked_until = Some(now + self.block_duration);
            allowed = false;
        }
        self.ip_stats.set(idx, st);
        proof {
            assert forall|other: Seq<u8>| other != ip@ implies #[trigger] stats_of(*self, other) == stats_of(mid, other) by {
                lemma_key_index_bound(self.ip_keys@, other);
            }
        }
        allowed
    }

    /// Raises an address's suspicion score (if tracked); above 10 the
    /// address is blocked for the block duration from `now`.
    pub fn report_suspicious_activity(&mut self, ip: &Vec<u8>, now: i64)
        requires
            ddos_wf(*old(self)),
            stats_of(*old(self), ip@) matches Some(s) ==> s.suspicious_activity_score < u32::MAX && i64::MIN <= now
                + old(self).block_duration <= i64::MAX,
        ensures
            ddos_wf(*final(self)),
            final(self).ip_keys@ == old(self).ip_keys@,
            final(self).detection_threshold == old(self).detection_threshold,
            final(self).block_duration == old(self).block_duration,
            stats_of(*old(self), ip@) is None ==> final(self).ip_stats@ == old(self).ip_stats@,
            stats_of(*old(self), ip@) matches Some(s) ==> stats_of(*final(self), ip@) == Some(
                if s.suspicious_activity_score + 1 > SUSPICION_LIMIT {
                    IpStats {
                        suspicious_activity_score: (s.suspicious_activity_score + 1) as u32,
                        is_blocked: true,
                        blocked_until: Some((now + old(self).block_duration) as i64),
                        ..s
                    }
                } else {
                    IpStats { suspicious_activity_score: (s.suspicious_activity_score + 1) as u32, ..s }
                },
            ),
            forall|other: Seq<u8>| other != ip@ ==> #[trigger] stats_of(*final(self), other) == stats_of(*old(self), other),
    {
        match self.find(ip) {
            None => {},
            Some(i) => {
                proof {
                    lemma_key_index_bound(self.ip_keys@, ip@);
                }
                let mut st = self.ip_stats[i];
                st.suspicious_activity_score = st.suspicious_activity_score + 1;
                if st.suspicious_activity_score > SUSPICION_LIMIT {
                    st.is_blocked = true;
                    st.blocked_until = Some(now + self.block_duration);
                }
                self.ip_stats.set(i, st);
                proof {
                    assert forall|other: Seq<u8>| other != ip@ implies #[trigger] stats_of(*self, other) == stats_of(*old(self), other) by {
                        lemma_key_index_bound(self.ip_keys@, other);
                    }
                }
            },
        }
    }

    /// Forgets addresses whose last request is a day or more before `now`.
    pub fn cleanup_old_entries(&mut self, now: i64)
        requires
            ddos_wf(*old(self)),
        ensures
            ddos_wf(*final(self)),
            final(self).ip_stats@ == old(self).ip_stats@.filter(|s: IpStats| s.last_request > now - ENTRY_LIFETIME_SECONDS),
            final(self).ip_keys@.map_values(|k: Vec<u8>| k@) == kept_keys(old(self).ip_keys@, old(self).ip_stats@, now - ENTRY_LIFETIME_SECONDS),
            final(self).detection_threshold == old(self).detection_threshold,
            final(self).block_duration == old(self).block_duration,
    {
        let cutoff: i128 = now as i128 - ENTRY_LIFETIME_SECONDS as i128;
        let ghost s0 = self.ip_stats@;
        let ghost k0 = self.ip_keys@;
        let mut keys: Vec<Vec<u8>> = Vec::new();
        let mut stats: Vec<IpStats> = Vec::new();
        let mut rest_keys: Vec<Vec<u8>> = Vec::new();
        std::mem::swap(&mut rest_keys, &mut self.ip_keys);
        let n = self.ip_stats.len();
        let mut i: usize = 0;
        while i < n
            invariant
                n == s0.len(),
                self.ip_stats@ == s0,
                rest_keys@ == k0.skip(i as int),
                k0.len() == n,
                i <= n,
                keys@.map_values(|k: Vec<u8>| k@) == kept_keys(k0.take(i as int), s0.take(i as int), now - ENTRY_LIFETIME_SECONDS),
                keys@.len() == stats@.len(),
                stats@ == s0.take(i as int).filter(|s: IpStats| s.last_request > now - ENTRY_LIFETIME_SECONDS),
                cutoff == now - ENTRY_LIFETIME_SECONDS,
                self.detection_threshold == old(self).detection_threshold,
                self.block_duration == old(self).block_duration,
            decreases n - i,
        {
            proof {
                assert(s0.take(i as int + 1).drop_last() == s0.take(i as int));
                reveal(Seq::filter);
            }
            let k = rest_keys.remove(0);
            proof {
                assert(k == k0[i as int]);
                assert(rest_keys@ =~= k0.skip(i as int + 1));
                assert(k0.take(i as int + 1).drop_last() == k0.take(i as int));
                assert(k0.take(i as int + 1).last() == k0[i as int]);
                assert(s0.take(i as int + 1).last() == s0[i as int]);
            }
            let s = self.ip_stats[i];
            let ghost kv = k@;
            let ghost before = keys@.map_values(|x: Vec<u8>| x@);
            if (s.last_request as i128) > cutoff {
                keys.push(k);
                stats.push(s);
                proof {
                    assert(keys@.map_values(|x: Vec<u8>| x@) =~= before.push(kv));
                }
            }
            i = i + 1;
        }
        proof {
            assert(s0.take(n as int) == s0);
            assert(k0.take(n as int) == k0);
        }
        self.ip_keys = keys;
        self.ip_stats = stats;
    }
}

/// While a block lasts, requests are refused and nothing changes; a request
/// over the threshold is refused and starts a block.
pub proof fn lemma_block_refuses(s: IpStats, now: i64, threshold: u32, duration: i64)
    requires
        s.is_blocked ==> s.blocked_until is Some,
    ensures
        s.is_blocked && (s.blocked_until matches Some(t) && now < t) ==> check_outcome(s, now, threshold, duration) == (false, s),
        check_outcome(s, now, threshold, duration).0 ==> !check_outcome(s, now, threshold, duration).1.is_blocked,
        !check_outcome(s, now, threshold, duration).0 ==> check_outcome(s, now, threshold, duration).1.is_blocked,
{
}

} // verus!
