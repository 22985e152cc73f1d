//! Per-tier rate limits on swaps (hourly) and liquidity operations (daily),
//! with time windows and cached window boundaries.
use vstd::prelude::*;
use vstd::arithmetic::div_mod::lemma_div_denominator;
use crate::emergency::AccountId;

verus! {

/// User tier, from the most to the least restricted.
#[derive(Clone, Copy, Debug, PartialEq, Eq, Structural)]
pub enum UserTier {
    Novice,
    Trader,
    Expert,
    Whale,
}

/// Cached window boundaries.
#[derive(Clone, Copy, Debug, PartialEq, Eq, Structural)]
pub struct CachedWindowBoundary {
    pub window_start: u64,
    /// Next window boundary; the cache is valid strictly before it
    pub expires_at: u64,
    pub window_duration: u64,
}

impl CachedWindowBoundary {
    /// The cache is valid strictly before it expires.
    pub fn is_valid(&self, timestamp: u64) -> (r: bool)
        ensures
            r == (timestamp < self.expires_at),
    {
        timestamp < self.expires_at
    }

    /// A cache entry for a window.
    pub fn new(window_start: u64, window_duration: u64) -> (c: Self)
        requires
            window_start + window_duration <= u64::MAX,
        ensures
            c == (CachedWindowBoundary {
                window_start,
                expires_at: (window_start + window_duration) as u64,
                window_duration,
            }),
    {
        CachedWindowBoundary { window_start, expires_at: window_start + window_duration, window_duration }
    }
}

/// Rate limit configuration of a tier.
#[derive(Clone, Copy, Debug, PartialEq, Eq, Structural)]
pub struct RateLimitConfig {
    pub swaps_per_hour: u32,
    pub lp_ops_per_day: u32,
}

pub open spec fn tier_config(tier: UserTier) -> RateLimitConfig {
    match tier {
        UserTier::Novice => RateLimitConfig { swaps_per_hour: 5, lp_ops_per_day: 10 },
        UserTier::Trader => RateLimitConfig { swaps_per_hour: 20, lp_ops_per_day: 30 },
        UserTier::Expert => RateLimitConfig { swaps_per_hour: 100, lp_ops_per_day: u32::MAX },
        UserTier::Whale => RateLimitConfig { swaps_per_hour: u32::MAX, lp_ops_per_day: u32::MAX },
    }
}

impl RateLimitConfig {
    /// Limits of a tier.
    pub fn for_tier(tier: &UserTier) -> (c: Self)
        ensures
            c == tier_config(*tier),
    {
        match tier {
            UserTier::Novice => RateLimitConfig { swaps_per_hour: 5, lp_ops_per_day: 10 },
            UserTier::Trader => RateLimitConfig { swaps_per_hour: 20, lp_ops_per_day: 30 },
            UserTier::Expert => RateLimitConfig { swaps_per_hour: 100, lp_ops_per_day: u32::MAX },
            UserTier::Whale => RateLimitConfig { swaps_per_hour: u32::MAX, lp_ops_per_day: u32::MAX },
        }
    }
}

/// Rate limit status.
#[derive(Clone, Copy, Debug, PartialEq, Eq, Structural)]
pub struct RateLimitStatus {
    pub used: u32,
    pub limit: u32,
    /// Milliseconds until the window resets
    pub cooldown_ms: u64,
}

/// A time window.
#[derive(Clone, Copy, Debug, PartialEq, Eq, Structural)]
pub struct TimeWindow {
    pub window_start: u64,
    pub window_duration: u64,
}

/// Start of the window of a given duration that contains a timestamp.
pub open spec fn window_start_of(ts: u64, duration: u64) -> int {
    (ts / duration) * duration
}

/// For a window length with a single bit set, clearing the bits below it
/// rounds a timestamp down to a multiple of the length.
proof fn lemma_single_bit_mask_floors(ts: u64, d: u64)
    requires
        d > 0,
        d & ((d - 1) as u64) == 0,
    ensures
        (ts & !((d - 1) as u64)) == (ts / d) * d,
    decreases d,
{
    if d == 1 {
        assert(ts & !0u64 == ts) by (bit_vector);
    } else {
        let h: u64 = d / 2;
        let t: u64 = ts / 2;
        assert(h > 0 && h & ((h - 1) as u64) == 0 && d == 2 * h) by (bit_vector)
            requires
                d > 1,
                d & ((d - 1) as u64) == 0,
                h == d / 2,
        ;
        lemma_single_bit_mask_floors(t, h);
        assert((ts & !((d - 1) as u64)) == 2 * (t & !((h - 1) as u64))) by (bit_vector)
            requires
                d == 2 * h,
                h > 0,
                h & ((h - 1) as u64) == 0,
                t == ts / 2,
        ;
        lemma_div_denominator(ts as int, 2, h as int);
        assert((ts / d) * d == 2 * ((t / h) * h)) by (nonlinear_arith)
            requires
                d == 2 * h,
                h > 0,
                ts / d == t / h,
        ;
    }
}

/// The window start lies within one duration below the timestamp.
pub proof fn lemma_window_start_bounds(ts: u64, duration: u64)
    requires
        duration > 0,
    ensures
        0 <= window_start_of(ts, duration) <= ts,
        ts < window_start_of(ts, duration) + duration,
{
    assert(0 <= (ts / duration) * duration <= ts) by (nonlinear_arith)
        requires duration > 0;
    assert(ts < (ts / duration) * duration + duration) by (nonlinear_arith)
        requires duration > 0;
}

/// A cache slot is well formed for a duration: it was written for that
/// duration, expires one duration after its start, and starts no later than
/// the timestamp.
pub open spec fn cache_ok(cache: Option<CachedWindowBoundary>, now: u64, duration: u64) -> bool {
    cache matches Some(c) ==> c.window_duration == duration && c.window_start <= now
        && c.expires_at == c.window_start + duration
}

/// Milliseconds from a timestamp to the end of a window (0 once passed).
pub open spec fn cooldown_of(w: TimeWindow, ts: u64) -> int {
    if ts >= w.window_start + w.window_duration {
        0
    } else {
        (w.window_start + w.window_duration - ts) * 1000
    }
}

impl TimeWindow {
    /// Hourly window (3600 seconds) containing a timestamp. Windows are
    /// half-open, `[start, start + 3600)`, and start on multiples of 3600, so
    /// a timestamp on a boundary opens a new window: 7200 lies in the window
    /// starting at 7200 (as the cooldown of a full hour at 3600 and the
    /// power-of-two windows also require).
    pub fn hourly(current_timestamp: u64) -> (w: Self)
        ensures
            w.window_duration == 3600,
            w.window_start == window_start_of(current_timestamp, 3600),
            w.window_start <= current_timestamp < w.window_start + 3600,
    {
        let window_duration: u64 = 3600;
        proof {
            lemma_window_start_bounds(current_timestamp, 3600);
        }
        let window_start: u64 = (current_timestamp / window_duration) * window_duration;
        TimeWindow { window_start, window_duration }
    }

    /// Daily window (86400 seconds) containing a timestamp: half-open,
    /// `[start, start + 86400)`, starting on multiples of 86400, so 172800
    /// lies in the window starting at 172800.
    pub fn daily(current_timestamp: u64) -> (w: Self)
        ensures
            w.window_duration == 86400,
            w.window_start == window_start_of(current_timestamp, 86400),
            w.window_start <= current_timestamp < w.window_start + 86400,
    {
        let window_duration: u64 = 86400;
        proof {
            lemma_window_start_bounds(current_timestamp, 86400);
        }
        let window_start: u64 = (current_timestamp / window_duration) * window_duration;
        TimeWindow { window_start, window_duration }
    }

    /// Window of any positive duration containing a timestamp; power-of-two
    /// durations are computed with a bit mask that clears the low bits.
    pub fn fast_window(current_timestamp: u64, window_duration: u64) -> (w: Self)
        requires
            window_duration > 0,
        ensures
            w.window_duration == window_duration,
            (window_duration & ((window_duration - 1) as u64)) == 0 ==> w.window_start
                == (current_timestamp & !((window_duration - 1) as u64)),
            w.window_start == window_start_of(current_timestamp, window_duration),
            w.window_start <= current_timestamp,
    {
        let single_bit: bool = window_duration & (window_duration - 1) == 0;
        let window_start: u64 = if single_bit {
            let mask: u64 = window_duration - 1;
            let ts: u64 = current_timestamp;
            let d: u64 = window_duration;
            assert((ts & !mask) <= ts) by (bit_vector);
            proof {
                lemma_single_bit_mask_floors(ts, d);
            }
            current_timestamp & !mask
        } else {
            proof {
                lemma_window_start_bounds(current_timestamp, window_duration);
            }
            (current_timestamp / window_duration) * window_duration
        };
        TimeWindow { window_start, window_duration }
    }

    /// Milliseconds until the next window.
    pub fn cooldown_ms(&self, current_timestamp: u64) -> (r: u64)
        requires
            self.window_start + self.window_duration <= u64::MAX,
            current_timestamp < self.window_start + self.window_duration ==> (self.window_start
                + self.window_duration - current_timestamp) * 1000 <= u64::MAX,
        ensures
            r == cooldown_of(*self, current_timestamp),
    {
        let next_window: u64 = self.window_start + self.window_duration;
        if current_timestamp >= next_window {
            0
        } else {
            (next_window - current_timestamp) * 1000
        }
    }

    /// Hourly window, served from the cache while it is valid and refreshed
    /// otherwise.
    pub fn hourly_cached(storage: &mut RateLimitStorage, current_timestamp: u64) -> (w: Self)
        requires
            current_timestamp <= u64::MAX - 3600,
        ensures
            w == cached_window(old(storage).hourly_cache, current_timestamp, 3600),
            cache_ok(old(storage).hourly_cache, current_timestamp, 3600) ==> w.window_start <= current_timestamp
                && w.window_duration == 3600,
            final(storage).hourly_cache == Some(cache_after(old(storage).hourly_cache, current_timestamp, 3600)),
            final(storage).daily_cache == old(storage).daily_cache,
            final(storage).counters == old(storage).counters,
    {
        match storage.hourly_cache {
            Some(cached) => {
                if cached.is_valid(current_timestamp) {
                    return TimeWindow {
                        window_start: cached.window_start,
                        window_duration: cached.window_duration,
                    };
                }
            },
            None => {},
        }
        let window = Self::hourly(current_timestamp);
        let new_cache = CachedWindowBoundary::new(window.window_start, window.window_duration);
        storage.hourly_cache = Some(new_cache);
        window
    }

    /// Daily window, served from the cache while it is valid and refreshed
    /// otherwise.
    pub fn daily_cached(storage: &mut RateLimitStorage, current_timestamp: u64) -> (w: Self)
        requires
            current_timestamp <= u64::MAX - 86400,
        ensures
            w == cached_window(old(storage).daily_cache, current_timestamp, 86400),
            cache_ok(old(storage).daily_cache, current_timestamp, 86400) ==> w.window_start <= current_timestamp
                && w.window_duration == 86400,
            final(storage).daily_cache == Some(cache_after(old(storage).daily_cache, current_timestamp, 86400)),
            final(storage).hourly_cache == old(storage).hourly_cache,
            final(storage).counters == old(storage).counters,
    {
        match storage.daily_cache {
            Some(cached) => {
                if cached.is_valid(current_timestamp) {
                    return TimeWindow {
                        window_start: cached.window_start,
                        window_duration: cached.window_duration,
                    };
                }
            },
            None => {},
        }
        let window = Self::daily(current_timestamp);
        let new_cache = CachedWindowBoundary::new(window.window_start, window.window_duration);
        storage.daily_cache = Some(new_cache);
        window
    }
}

/// Window served by a cache slot at a timestamp.
pub open spec fn cached_window(cache: Option<CachedWindowBoundary>, ts: u64, duration: u64) -> TimeWindow {
    match cache {
        Some(c) if ts < c.expires_at => TimeWindow { window_start: c.window_start, window_duration: c.window_duration },
        _ => TimeWindow { window_start: window_start_of(ts, duration) as u64, window_duration: duration },
    }
}

/// Cache slot content after serving a timestamp.
pub open spec fn cache_after(cache: Option<CachedWindowBoundary>, ts: u64, duration: u64) -> CachedWindowBoundary {
    match cache {
        Some(c) if ts < c.expires_at => c,
        _ => CachedWindowBoundary {
            window_start: window_start_of(ts, duration) as u64,
            expires_at: (window_start_of(ts, duration) + duration) as u64,
            window_duration: duration,
        },
    }
}

/// Kind of rate-limited operation.
#[derive(Clone, Copy, Debug, PartialEq, Eq, Structural)]
pub enum OperationKind {
    Swap,
    LpOp,
}

/// Operation count of a user in a window.
#[derive(Clone, Copy, Debug, PartialEq, Eq, Structural)]
pub struct OperationCounter {
    pub user: AccountId,
    pub kind: OperationKind,
    pub window_start: u64,
    pub count: u32,
}

/// Persistent storage of the rate limiter: the two cache slots and the
/// operation counters (one per user, kind and window).
#[derive(Clone, Debug)]
pub struct RateLimitStorage {
    pub hourly_cache: Option<CachedWindowBoundary>,
    pub daily_cache: Option<CachedWindowBoundary>,
    pub counters: Vec<OperationCounter>,
}

/// Count stored for a user, kind and window (the last matching counter; 0
/// when none).
pub open spec fn counter_value(s: Seq<OperationCounter>, user: AccountId, kind: OperationKind, start: u64) -> u32
    decreases s.len(),
{
    if s.len() == 0 {
        0
    } else if s.last().user == user && s.last().kind == kind && s.last().window_start == start {
        s.last().count
    } else {
        counter_value(s.drop_last(), user, kind, start)
    }
}

impl RateLimitStorage {
    /// Empty storage.
    pub fn new() -> (s: Self)
        ensures
            s.hourly_cache is None,
            s.daily_cache is None,
            s.counters@.len() == 0,
    {
        RateLimitStorage { hourly_cache: None, daily_cache: None, counters: Vec::new() }
    }

    pub open spec fn count(self, user: AccountId, kind: OperationKind, start: u64) -> u32 {
        counter_value(self.counters@, user, kind, start)
    }

    fn read_count(&self, user: AccountId, kind: OperationKind, start: u64) -> (r: u32)
        ensures
            r == self.count(user, kind, start),
    {
        let mut i: usize = self.counters.len();
        proof {
            assert(self.counters@.take(self.counters@.len() as int) == self.counters@);
        }
        while i > 0
            invariant
                i <= self.counters.len(),
                self.count(user, kind, start) == counter_value(self.counters@.take(i as int), user, kind, start),
            decreases i,
        {
            let c = self.counters[i - 1];
            proof {
                assert(self.counters@.take(i as int).drop_last() == self.counters@.take(i as int - 1));
                assert(self.counters@.take(i as int).last() == c);
            }
            if c.user == user && c.kind == kind && c.window_start == start {
                return c.count;
            }
            i = i - 1;
        }
        0
    }

    fn write_count(&mut self, user: AccountId, kind: OperationKind, start: u64, value: u32)
        ensures
            final(self).count(user, kind, start) == value,
            forall|u: AccountId, k: OperationKind, s: u64| !(u == user && k == kind && s == start)
                ==> #[trigger] final(self).count(u, k, s) == old(self).count(u, k, s),
            final(self).hourly_cache == old(self).hourly_cache,
            final(self).daily_cache == old(self).daily_cache,
    {
        let ghost src: Seq<OperationCounter> = self.counters@;
        let mut kept: Vec<OperationCounter> = Vec::new();
        let mut i: usize = 0;
        while i < self.counters.len()
            invariant
                i <= self.counters.len(),
                self.counters@ == src,
                kept@ == src.take(i as int).filter(|c: OperationCounter| !(c.user == user && c.kind == kind && c.window_start == start)),
            decreases self.counters.len() - i,
        {
            let c = self.counters[i];
            proof {
                assert(src.take(i as int + 1).drop_last() == src.take(i as int));
                reveal_with_fuel(Seq::filter, 1);
            }
            if !(c.user == user && c.kind == kind && c.window_start == start) {
                kept.push(c);
            }
            i = i + 1;
        }
        proof {
            assert(src.take(src.len() as int) == src);
            let nc = OperationCounter { user, kind, window_start: start, count: value };
            assert forall|u: AccountId, k: OperationKind, s: u64| !(u == user && k == kind && s == start)
                implies #[trigger] counter_value(kept@.push(nc), u, k, s) == counter_value(src, u, k, s) by {
                assert(kept@.push(nc).drop_last() == kept@);
                lemma_counter_filter(src, user, kind, start, u, k, s);
            }
        }
        kept.push(OperationCounter { user, kind, window_start: start, count: value });
        self.counters = kept;
    }
}

proof fn lemma_counter_filter(src: Seq<OperationCounter>, user: AccountId, kind: OperationKind, start: u64, u: AccountId, k: OperationKind, s: u64)
    requires
        !(u == user && k == kind && s == start),
    ensures
        counter_value(src.filter(|c: OperationCounter| !(c.user == user && c.kind == kind && c.window_start == start)), u, k, s)
            == counter_value(src, u, k, s),
    decreases src.len(),
{
    reveal_with_fuel(Seq::filter, 1);
    if src.len() > 0 {
        lemma_counter_filter(src.drop_last(), user, kind, start, u, k, s);
        let f = src.drop_last().filter(|c: OperationCounter| !(c.user == user && c.kind == kind && c.window_start == start));
        if !(src.last().user == user && src.last().kind == kind && src.last().window_start == start) {
            assert(f.push(src.last()).drop_last() == f);
        }
    }
}

/// Result of a limit check: allowed below the limit, otherwise the status.
pub open spec fn limit_check(used: u32, limit: u32, w: TimeWindow, ts: u64) -> Result<(), RateLimitStatus> {
    if limit == u32::MAX || used < limit {
        Ok(())
    } else {
        Err(RateLimitStatus { used, limit, cooldown_ms: cooldown_of(w, ts) as u64 })
    }
}

/// Rate limiter for swaps and liquidity operations.
pub struct RateLimiter;

impl RateLimiter {
    /// Check whether the user may swap now (unlimited tiers always may).
    pub fn check_swap_limit(storage: &mut RateLimitStorage, user: AccountId, tier: &UserTier, now: u64) -> (r: Result<(), RateLimitStatus>)
        requires
            now <= u64::MAX - 3600,
            cache_ok(old(storage).hourly_cache, now, 3600),
        ensures
            tier_config(*tier).swaps_per_hour == u32::MAX ==> r is Ok && *final(storage) == *old(storage),
            tier_config(*tier).swaps_per_hour != u32::MAX ==> {
                let w = cached_window(old(storage).hourly_cache, now, 3600);
                &&& r == limit_check(old(storage).count(user, OperationKind::Swap, w.window_start),
                    tier_config(*tier).swaps_per_hour, w, now)
                &&& final(storage).hourly_cache == Some(cache_after(old(storage).hourly_cache, now, 3600))
                &&& final(storage).counters == old(storage).counters
                &&& final(storage).daily_cache == old(storage).daily_cache
            },
            hourly_swap_step(*old(storage), *final(storage), user, now, false),
    {
        let config = RateLimitConfig::for_tier(tier);
        if config.swaps_per_hour == u32::MAX {
            return Ok(());
        }
        let window = TimeWindow::hourly_cached(storage, now);
        let current_count: u32 = storage.read_count(user, OperationKind::Swap, window.window_start);
        if current_count >= config.swaps_per_hour {
            return Err(RateLimitStatus {
                used: current_count,
                limit: config.swaps_per_hour,
                cooldown_ms: window.cooldown_ms(now),
            });
        }
        Ok(())
    }

    /// Count one swap in the current hourly window.
    pub fn record_swap(storage: &mut RateLimitStorage, user: AccountId, timestamp: u64)
        requires
            timestamp <= u64::MAX - 3600,
            old(storage).count(user, OperationKind::Swap, cached_window(old(storage).hourly_cache, timestamp, 3600).window_start) < u32::MAX,
        ensures
            ({
                let w = cached_window(old(storage).hourly_cache, timestamp, 3600);
                &&& final(storage).count(user, OperationKind::Swap, w.window_start)
                    == old(storage).count(user, OperationKind::Swap, w.window_start) + 1
                &&& forall|u: AccountId, k: OperationKind, s: u64| !(u == user && k == OperationKind::Swap && s == w.window_start)
                    ==> #[trigger] final(storage).count(u, k, s) == old(storage).count(u, k, s)
            }),
            final(storage).hourly_cache == Some(cache_after(old(storage).hourly_cache, timestamp, 3600)),
            final(storage).daily_cache == old(storage).daily_cache,
            hourly_swap_step(*old(storage), *final(storage), user, timestamp, true),
    {
        let window = TimeWindow::hourly_cached(storage, timestamp);
        let current_count: u32 = storage.read_count(user, OperationKind::Swap, window.window_start);
        storage.write_count(user, OperationKind::Swap, window.window_start, current_count + 1);
    }

    /// Check whether the user may perform a liquidity operation now.
    pub fn check_lp_limit(storage: &mut RateLimitStorage, user: AccountId, tier: &UserTier, now: u64) -> (r: Result<(), RateLimitStatus>)
        requires
            now <= u64::MAX - 86400,
            cache_ok(old(storage).daily_cache, now, 86400),
        ensures
            tier_config(*tier).lp_ops_per_day == u32::MAX ==> r is Ok && *final(storage) == *old(storage),
            tier_config(*tier).lp_ops_per_day != u32::MAX ==> {
                let w = cached_window(old(storage).daily_cache, now, 86400);
                &&& r == limit_check(old(storage).count(user, OperationKind::LpOp, w.window_start),
                    tier_config(*tier).lp_ops_per_day, w, now)
                &&& final(storage).daily_cache == Some(cache_after(old(storage).daily_cache, now, 86400))
                &&& final(storage).counters == old(storage).counters
                &&& final(storage).hourly_cache == old(storage).hourly_cache
            },
    {
        let config = RateLimitConfig::for_tier(tier);
        if config.lp_ops_per_day == u32::MAX {
            return Ok(());
        }
        let window = TimeWindow::daily_cached(storage, now);
        let current_count: u32 = storage.read_count(user, OperationKind::LpOp, window.window_start);
        if current_count >= config.lp_ops_per_day {
            return Err(RateLimitStatus {
                used: current_count,
                limit: config.lp_ops_per_day,
                cooldown_ms: window.cooldown_ms(now),
            });
        }
        Ok(())
    }

    /// Count one liquidity operation in the current daily window.
    pub fn record_lp_op(storage: &mut RateLimitStorage, user: AccountId, timestamp: u64)
        requires
            timestamp <= u64::MAX - 86400,
            old(storage).count(user, OperationKind::LpOp, cached_window(old(storage).daily_cache, timestamp, 86400).window_start) < u32::MAX,
        ensures
            ({
                let w = cached_window(old(storage).daily_cache, timestamp, 86400);
                &&& final(storage).count(user, OperationKind::LpOp, w.window_start)
                    == old(storage).count(user, OperationKind::LpOp, w.window_start) + 1
                &&& forall|u: AccountId, k: OperationKind, s: u64| !(u == user && k == OperationKind::LpOp && s == w.window_start)
                    ==> #[trigger] final(storage).count(u, k, s) == old(storage).count(u, k, s)
            }),
            final(storage).daily_cache == Some(cache_after(old(storage).daily_cache, timestamp, 86400)),
            final(storage).hourly_cache == old(storage).hourly_cache,
    {
        let window = TimeWindow::daily_cached(storage, timestamp);
        let current_count: u32 = storage.read_count(user, OperationKind::LpOp, window.window_start);
        storage.write_count(user, OperationKind::LpOp, window.window_start, current_count + 1);
    }

    /// Swap usage of the user in the current hourly window.
    pub fn get_swap_status(storage: &mut RateLimitStorage, user: AccountId, tier: &UserTier, now: u64) -> (r: RateLimitStatus)
        requires
            now <= u64::MAX - 3600,
            cache_ok(old(storage).hourly_cache, now, 3600),
        ensures
            ({
                let w = cached_window(old(storage).hourly_cache, now, 3600);
                &&& r == (RateLimitStatus {
                    used: old(storage).count(user, OperationKind::Swap, w.window_start),
                    limit: tier_config(*tier).swaps_per_hour,
                    cooldown_ms: cooldown_of(w, now) as u64,
                })
            }),
            final(storage).hourly_cache == Some(cache_after(old(storage).hourly_cache, now, 3600)),
            final(storage).counters == old(storage).counters,
            final(storage).daily_cache == old(storage).daily_cache,
            hourly_swap_step(*old(storage), *final(storage), user, now, false),
    {
        let config = RateLimitConfig::for_tier(tier);
        let window = TimeWindow::hourly_cached(storage, now);
        let used: u32 = storage.read_count(user, OperationKind::Swap, window.window_start);
        RateLimitStatus { used, limit: config.swaps_per_hour, cooldown_ms: window.cooldown_ms(now) }
    }

    /// Liquidity-operation usage of the user in the current daily window.
    pub fn get_lp_status(storage: &mut RateLimitStorage, user: AccountId, tier: &UserTier, now: u64) -> (r: RateLimitStatus)
        requires
            now <= u64::MAX - 86400,
            cache_ok(old(storage).daily_cache, now, 86400),
        ensures
            ({
                let w = cached_window(old(storage).daily_cache, now, 86400);
                &&& r == (RateLimitStatus {
                    used: old(storage).count(user, OperationKind::LpOp, w.window_start),
                    limit: tier_config(*tier).lp_ops_per_day,
                    cooldown_ms: cooldown_of(w, now) as u64,
                })
            }),
            final(storage).daily_cache == Some(cache_after(old(storage).daily_cache, now, 86400)),
            final(storage).counters == old(storage).counters,
            final(storage).hourly_cache == old(storage).hourly_cache,
    {
        let config = RateLimitConfig::for_tier(tier);
        let window = TimeWindow::daily_cached(storage, now);
        let used: u32 = storage.read_count(user, OperationKind::LpOp, window.window_start);
        RateLimitStatus { used, limit: config.lp_ops_per_day, cooldown_ms: window.cooldown_ms(now) }
    }
}

/// A cache slot holding a window of `duration` that starts on a multiple of
/// it (as every slot the limiter writes does).
pub open spec fn cache_aligned(cache: Option<CachedWindowBoundary>, duration: u64) -> bool {
    cache matches Some(c) ==> c.window_duration == duration && c.window_start % duration == 0
        && c.expires_at == c.window_start + duration
}

/// Counting follows the clock: as long as timestamps never decrease, the
/// window a check or a record uses at time `now` is the true window of
/// `now` (so counts are kept per true hour or day), and the slot left
/// behind is aligned and still no later than any later time.
pub proof fn lemma_window_follows_clock(cache: Option<CachedWindowBoundary>, now: u64, later: u64, duration: u64)
    requires
        duration > 0,
        now <= later,
        now as int + duration <= u64::MAX,
        cache_aligned(cache, duration),
        cache matches Some(c) ==> c.window_start <= now,
    ensures
        cached_window(cache, now, duration).window_start == window_start_of(now, duration),
        cache_aligned(Some(cache_after(cache, now, duration)), duration),
        cache_after(cache, now, duration).window_start <= later,
{
    lemma_window_start_bounds(now, duration);
    let w = window_start_of(now, duration);
    assert(w % duration as int == 0) by (nonlinear_arith)
        requires w == (now / duration) * duration, duration > 0;
    match cache {
        Some(c) => {
            if now < c.expires_at {
                let a = c.window_start as int;
                assert(a == (now / duration) * duration) by (nonlinear_arith)
                    requires a % duration as int == 0, a <= now, now < a + duration, duration > 0;
            }
        },
        None => {},
    }
}


/// One call of the hourly swap bookkeeping, as the limiter's contracts leave
/// the storage: `record_swap(user, ts)` when `recorded` holds, otherwise a
/// swap check or status read at `ts`, which changes no counter and at most
/// refreshes the hourly slot.
pub open spec fn hourly_swap_step(before: RateLimitStorage, after: RateLimitStorage, user: AccountId, ts: u64, recorded: bool) -> bool {
    let w = cached_window(before.hourly_cache, ts, 3600);
    if recorded {
        &&& after.hourly_cache == Some(cache_after(before.hourly_cache, ts, 3600))
        &&& after.count(user, OperationKind::Swap, w.window_start)
            == before.count(user, OperationKind::Swap, w.window_start) + 1
        &&& forall|u: AccountId, k: OperationKind, s: u64| !(u == user && k == OperationKind::Swap && s == w.window_start)
            ==> #[trigger] after.count(u, k, s) == before.count(u, k, s)
    } else {
        &&& (after.hourly_cache == before.hourly_cache
            || after.hourly_cache == Some(cache_after(before.hourly_cache, ts, 3600)))
        &&& after.counters == before.counters
    }
}

/// The `i`-th call of a trace of calls `(user, timestamp, recorded)` leads
/// from `states[i]` to `states[i + 1]`.
pub open spec fn swap_trace_step(states: Seq<RateLimitStorage>, calls: Seq<(AccountId, u64, bool)>, i: int) -> bool {
    hourly_swap_step(states[i], states[i + 1], calls[i].0, calls[i].1, calls[i].2)
}

/// A trace of swap checks and records on fresh storage, with timestamps that
/// never decrease and leave room for one more hour.
pub open spec fn swap_trace(states: Seq<RateLimitStorage>, calls: Seq<(AccountId, u64, bool)>) -> bool {
    &&& states.len() == calls.len() + 1
    &&& states[0].hourly_cache is None
    &&& states[0].counters@.len() == 0
    &&& forall|i: int| 0 <= i < calls.len() ==> #[trigger] swap_trace_step(states, calls, i)
    &&& forall|i: int, j: int| 0 <= i < j < calls.len() ==> calls[i].1 <= calls[j].1
    &&& forall|i: int| 0 <= i < calls.len() ==> calls[i].1 <= u64::MAX - 3600
}

/// Number of swaps recorded for a user in the hour starting at `start`.
pub open spec fn swaps_recorded(calls: Seq<(AccountId, u64, bool)>, user: AccountId, start: int) -> nat
    decreases calls.len(),
{
    if calls.len() == 0 {
        0
    } else {
        let c = calls.last();
        swaps_recorded(calls.drop_last(), user, start) + if c.2 && c.0 == user && window_start_of(c.1, 3600) == start {
            1nat
        } else {
            0nat
        }
    }
}

/// What a swap check answers when `used` swaps were recorded in the hour of
/// `now` against a limit.
pub open spec fn swap_verdict(used: nat, limit: u32, now: u64) -> Result<(), RateLimitStatus> {
    if limit == u32::MAX || used < limit {
        Ok(())
    } else {
        Err(RateLimitStatus { used: used as u32, limit, cooldown_ms: ((3600 - now % 3600) * 1000) as u64 })
    }
}

proof fn lemma_swap_trace_prefix(states: Seq<RateLimitStorage>, calls: Seq<(AccountId, u64, bool)>, k: int, later: u64)
    requires
        swap_trace(states, calls),
        0 <= k <= calls.len(),
        forall|i: int| 0 <= i < k ==> calls[i].1 <= later,
        later <= u64::MAX - 3600,
    ensures
        forall|u: AccountId, s: u64| #[trigger] states[k].count(u, OperationKind::Swap, s)
            == swaps_recorded(calls.take(k), u, s as int),
        cache_aligned(states[k].hourly_cache, 3600),
        states[k].hourly_cache matches Some(c) ==> c.window_start <= later,
    decreases k,
{
    if k == 0 {
        assert(calls.take(0).len() == 0);
    } else {
        let (user, ts, recorded) = calls[k - 1];
        assert forall|i: int| 0 <= i < k - 1 implies calls[i].1 <= ts by {}
        lemma_swap_trace_prefix(states, calls, k - 1, ts);
        lemma_swap_trace_prefix(states, calls, k - 1, later);
        lemma_window_follows_clock(states[k - 1].hourly_cache, ts, later, 3600);
        assert(swap_trace_step(states, calls, k - 1));
        let w = cached_window(states[k - 1].hourly_cache, ts, 3600);
        assert(calls.take(k).drop_last() == calls.take(k - 1));
        assert(calls.take(k).last() == calls[k - 1]);
        assert forall|u: AccountId, s: u64| #[trigger] states[k].count(u, OperationKind::Swap, s)
            == swaps_recorded(calls.take(k), u, s as int) by {
            assert(states[k - 1].count(u, OperationKind::Swap, s) == swaps_recorded(calls.take(k - 1), u, s as int));
            if recorded {
                if !(u == user && s == w.window_start) {
                    assert(states[k].count(u, OperationKind::Swap, s) == states[k - 1].count(u, OperationKind::Swap, s));
                }
            }
        }
    }
}

/// Swap limits count what was recorded: on fresh storage, after any trace
/// of swap checks and records whose timestamps never decrease, a check at a
/// time `now` no earlier than the trace sees the true hour of `now`, finds
/// exactly the swaps recorded for the user in that hour (swaps of other
/// users and of other hours are not counted), and answers `Ok` below the
/// tier's limit (always, for an unlimited tier) and otherwise the count, the
/// limit and the milliseconds left in the hour.
pub proof fn lemma_swap_count_follows_records(
    states: Seq<RateLimitStorage>,
    calls: Seq<(AccountId, u64, bool)>,
    user: AccountId,
    tier: UserTier,
    now: u64,
)
    requires
        swap_trace(states, calls),
        forall|i: int| 0 <= i < calls.len() ==> calls[i].1 <= now,
        now <= u64::MAX - 3600,
    ensures
        ({
            let last = states[calls.len() as int];
            let w = cached_window(last.hourly_cache, now, 3600);
            let used = swaps_recorded(calls, user, window_start_of(now, 3600));
            &&& cache_ok(last.hourly_cache, now, 3600)
            &&& w.window_start == window_start_of(now, 3600)
            &&& w.window_duration == 3600
            &&& last.count(user, OperationKind::Swap, w.window_start) == used
            &&& limit_check(last.count(user, OperationKind::Swap, w.window_start),
                tier_config(tier).swaps_per_hour, w, now) == swap_verdict(used, tier_config(tier).swaps_per_hour, now)
        }),
{
    let n = calls.len() as int;
    lemma_swap_trace_prefix(states, calls, n, now);
    lemma_window_follows_clock(states[n].hourly_cache, now, now, 3600);
    lemma_window_start_bounds(now, 3600);
    assert(calls.take(n) == calls);
    let w = cached_window(states[n].hourly_cache, now, 3600);
    assert(states[n].count(user, OperationKind::Swap, w.window_start)
        == swaps_recorded(calls, user, w.window_start as int));
    assert(window_start_of(now, 3600) == now - now % 3600) by (nonlinear_arith);
}

} // verus!
