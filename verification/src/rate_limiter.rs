//! Rate limits of the streaming server: per connection (messages,
//! bandwidth, subscriptions) and overall (new connections, messages,
//! bandwidth). Each limit is a token bucket of the governor crate; whether
//! a bucket lets a request through depends on the clock, so the contracts
//! below state what holds whatever the buckets answer, and the request
//! counters are exact.
use vstd::prelude::*;
use crate::subscriptions::{find_symbol, holds_symbol, lemma_symbol_index_bound, lemma_symbol_index_some};

verus! {

/// Mebibytes counted per second of bandwidth quota are turned into this
/// many cells per mebibyte.
pub const CELLS_PER_MB: u32 = 1024;

/// Cells per second of a connection's subscription bucket.
pub const SUBSCRIPTIONS_PER_SECOND: u32 = 10;

/// Burst of a connection's subscription bucket.
pub const SUBSCRIPTION_BURST: u32 = 20;

/// A quota of the governor crate.
#[verifier::external_type_specification]
#[verifier::external_body]
pub struct ExQuota(governor::Quota);

/// A direct (un-keyed) token bucket of the governor crate on its default
/// clock. governor's limiter type shares its name with this library's
/// `RateLimiter`, so it is kept behind this opaque struct instead of being
/// declared to the verifier.
#[verifier::external_body]
pub struct GovernorBucket {
    limiter: governor::DefaultDirectRateLimiter,
}

/// `governor::Quota::per_second`: `max_burst` cells per second, with a
/// burst of as many. Nothing is stated of the quota.
#[verifier::external_body]
fn quota_per_second(max_burst: u32) -> (q: governor::Quota)
    requires
        max_burst > 0,
{
    governor::Quota::per_second(std::num::NonZeroU32::new(max_burst).unwrap())
}

/// `governor::Quota::allow_burst`: the same rate with another burst.
/// Nothing is stated of the quota.
#[verifier::external_body]
fn quota_allow_burst(quota: governor::Quota, max_burst: u32) -> (q: governor::Quota)
    requires
        max_burst > 0,
{
    quota.allow_burst(std::num::NonZeroU32::new(max_burst).unwrap())
}

/// `governor::RateLimiter::direct`: a fresh bucket for a quota on the
/// default clock.
#[verifier::external_body]
fn direct_limiter(quota: governor::Quota) -> (l: GovernorBucket) {
    GovernorBucket { limiter: governor::DefaultDirectRateLimiter::direct(quota) }
}

/// `check` of a governor bucket: whether one cell may pass now (and, if
/// so, takes it). The answer depends on the clock and on earlier checks;
/// nothing is stated of it.
#[verifier::external_body]
fn limiter_check(limiter: &GovernorBucket) -> (allowed: bool) {
    limiter.limiter.check().is_ok()
}

/// A token bucket refilled at `rate` cells per second and holding at most
/// `burst` cells, with the governor bucket built from those two numbers.
pub struct DirectLimiter {
    pub rate: u32,
    pub burst: u32,
    pub bucket: GovernorBucket,
}

impl DirectLimiter {
    /// A bucket of `rate` cells per second whose burst is one second's
    /// worth.
    pub fn per_second(rate: u32) -> (l: Self)
        requires
            rate > 0,
        ensures
            l.rate == rate,
            l.burst == rate,
    {
        DirectLimiter { rate, burst: rate, bucket: direct_limiter(quota_per_second(rate)) }
    }

    /// A bucket of `rate` cells per second holding at most `burst` cells.
    pub fn with_burst(rate: u32, burst: u32) -> (l: Self)
        requires
            rate > 0,
            burst > 0,
        ensures
            l.rate == rate,
            l.burst == burst,
    {
        DirectLimiter { rate, burst, bucket: direct_limiter(quota_allow_burst(quota_per_second(rate), burst)) }
    }

    /// Whether one cell may pass now (taking it if so).
    pub fn check(&self) -> bool {
        limiter_check(&self.bucket)
    }
}

/// Errors of the rate limiter.
#[derive(Clone, Copy, Debug, PartialEq, Eq, Structural)]
pub enum RateLimitError {
    /// The overall connection bucket is empty.
    RateLimitExceeded,
}

/// Limits. The burst of the per-connection buckets is their rate times
/// `burst_size_multiplier_percent` / 100.
#[derive(Clone, Debug)]
pub struct RateLimitConfig {
    pub max_connections_per_second: u32,
    pub max_messages_per_connection_per_second: u32,
    pub max_bandwidth_per_connection_mb_per_second: u32,
    pub max_subscriptions_per_connection: u32,
    pub max_total_messages_per_second: u32,
    pub max_total_bandwidth_mb_per_second: u32,
    pub burst_size_multiplier_percent: u32,
    pub penalty_duration_seconds: u64,
    pub whitelist_ips: Vec<Vec<u8>>,
}

/// Burst of a bucket with `rate` cells per second.
pub open spec fn burst_of(rate: u32, multiplier_percent: u32) -> int {
    rate * multiplier_percent / 100
}

/// A configuration every bucket can be built from: positive rates and
/// bursts, and bandwidth quotas that fit in 32 bits once counted in cells.
pub open spec fn config_valid(c: RateLimitConfig) -> bool {
    &&& c.max_connections_per_second > 0
    &&& c.max_messages_per_connection_per_second > 0
    &&& c.max_bandwidth_per_connection_mb_per_second > 0
    &&& c.max_total_messages_per_second > 0
    &&& c.max_total_bandwidth_mb_per_second > 0
    &&& c.max_bandwidth_per_connection_mb_per_second * CELLS_PER_MB <= u32::MAX
    &&& c.max_total_bandwidth_mb_per_second * CELLS_PER_MB <= u32::MAX
    &&& 0 < burst_of(c.max_messages_per_connection_per_second, c.burst_size_multiplier_percent) <= u32::MAX
    &&& 0 < burst_of(c.max_bandwidth_per_connection_mb_per_second, c.burst_size_multiplier_percent) <= u32::MAX
}

impl Default for RateLimitConfig {
    fn default() -> (c: Self)
        ensures
            c.max_connections_per_second == 100,
            c.max_messages_per_connection_per_second == 100,
            c.max_bandwidth_per_connection_mb_per_second == 10,
            c.max_subscriptions_per_connection == 50,
            c.max_total_messages_per_second == 10000,
            c.max_total_bandwidth_mb_per_second == 1000,
            c.burst_size_multiplier_percent == 200,
            c.penalty_duration_seconds == 300,
            c.whitelist_ips@.len() == 0,
            config_valid(c),
    {
        RateLimitConfig {
            max_connections_per_second: 100,
            max_messages_per_connection_per_second: 100,
            max_bandwidth_per_connection_mb_per_second: 10,
            max_subscriptions_per_connection: 50,
            max_total_messages_per_second: 10000,
            max_total_bandwidth_mb_per_second: 1000,
            burst_size_multiplier_percent: 200,
            penalty_duration_seconds: 300,
            whitelist_ips: Vec::new(),
        }
    }
}

/// Request counters of the whole limiter.
#[derive(Clone, Copy, Debug, PartialEq, Eq, Structural)]
pub struct RateLimitStats {
    pub total_requests: u64,
    pub allowed_requests: u64,
    pub blocked_requests: u64,
    pub penalized_connections: u64,
}

/// Counters of one connection (this limiter does not update them).
#[derive(Clone, Copy, Debug, PartialEq, Eq, Structural)]
pub struct ConnectionRateLimitStats {
    pub requests: u64,
    pub allowed: u64,
    pub blocked: u64,
    pub penalized: bool,
    pub penalty_until: Option<i64>,
}

/// The buckets of one connection.
pub struct ConnectionRateLimiter {
    pub connection_id: u128,
    pub message_limiter: DirectLimiter,
    pub bandwidth_limiter: DirectLimiter,
    pub subscription_limiter: DirectLimiter,
    pub stats: ConnectionRateLimitStats,
    pub created_at: i64,
}

/// The overall buckets.
pub struct GlobalRateLimiter {
    pub total_connections_limiter: DirectLimiter,
    pub total_messages_limiter: DirectLimiter,
    pub total_bandwidth_limiter: DirectLimiter,
}

/// A connection's buckets are the ones a configuration prescribes.
pub open spec fn buckets_from(l: ConnectionRateLimiter, c: RateLimitConfig) -> bool {
    &&& l.message_limiter.rate == c.max_messages_per_connection_per_second
    &&& l.message_limiter.burst == burst_of(c.max_messages_per_connection_per_second, c.burst_size_multiplier_percent)
    &&& l.bandwidth_limiter.rate == c.max_bandwidth_per_connection_mb_per_second * CELLS_PER_MB
    &&& l.bandwidth_limiter.burst == burst_of(c.max_bandwidth_per_connection_mb_per_second, c.burst_size_multiplier_percent)
    &&& l.subscription_limiter.rate == SUBSCRIPTIONS_PER_SECOND
    &&& l.subscription_limiter.burst == SUBSCRIPTION_BURST
}

/// The overall buckets are the ones a configuration prescribes.
pub open spec fn global_buckets_from(g: GlobalRateLimiter, c: RateLimitConfig) -> bool {
    &&& g.total_connections_limiter.rate == c.max_connections_per_second
    &&& g.total_connections_limiter.burst == c.max_connections_per_second
    &&& g.total_messages_limiter.rate == c.max_total_messages_per_second
    &&& g.total_messages_limiter.burst == c.max_total_messages_per_second
    &&& g.total_bandwidth_limiter.rate == c.max_total_bandwidth_mb_per_second * CELLS_PER_MB
    &&& g.total_bandwidth_limiter.burst == c.max_total_bandwidth_mb_per_second * CELLS_PER_MB
}

/// Fresh counters of a connection.
pub open spec fn fresh_connection_stats() -> ConnectionRateLimitStats {
    ConnectionRateLimitStats { requests: 0, allowed: 0, blocked: 0, penalized: false, penalty_until: None }
}

/// Burst of a bucket with `rate` cells per second, computed.
fn burst_size(rate: u32, multiplier_percent: u32) -> (b: u32)
    requires
        burst_of(rate, multiplier_percent) <= u32::MAX,
    ensures
        b == burst_of(rate, multiplier_percent),
{
    let product: u64 = rate as u64 * multiplier_percent as u64;
    proof {
        assert(rate as u64 * multiplier_percent as u64 == rate * multiplier_percent) by (nonlinear_arith);
    }
    (product / 100) as u32
}

impl ConnectionRateLimiter {
    /// Buckets for a new connection: messages at the configured rate,
    /// bandwidth at the configured rate in cells, and subscriptions at 10
    /// per second with a burst of 20.
    pub fn new(connection_id: u128, config: &RateLimitConfig, now: i64) -> (l: Self)
        requires
            config_valid(*config),
        ensures
            l.connection_id == connection_id,
            l.stats == fresh_connection_stats(),
            l.created_at == now,
            l.message_limiter.rate == config.max_messages_per_connection_per_second,
            l.message_limiter.burst == burst_of(config.max_messages_per_connection_per_second, config.burst_size_multiplier_percent),
            l.bandwidth_limiter.rate == config.max_bandwidth_per_connection_mb_per_second * CELLS_PER_MB,
            l.bandwidth_limiter.burst == burst_of(
                config.max_bandwidth_per_connection_mb_per_second,
                config.burst_size_multiplier_percent,
            ),
            l.subscription_limiter.rate == SUBSCRIPTIONS_PER_SECOND,
            l.subscription_limiter.burst == SUBSCRIPTION_BURST,
    {
        let message_burst = burst_size(config.max_messages_per_connection_per_second, config.burst_size_multiplier_percent);
        let bandwidth_burst = burst_size(
            config.max_bandwidth_per_connection_mb_per_second,
            config.burst_size_multiplier_percent,
        );
        ConnectionRateLimiter {
            connection_id,
            message_limiter: DirectLimiter::with_burst(config.max_messages_per_connection_per_second, message_burst),
            bandwidth_limiter: DirectLimiter::with_burst(
                config.max_bandwidth_per_connection_mb_per_second * CELLS_PER_MB,
                bandwidth_burst,
            ),
            subscription_limiter: DirectLimiter::with_burst(SUBSCRIPTIONS_PER_SECOND, SUBSCRIPTION_BURST),
            stats: ConnectionRateLimitStats {
                requests: 0,
                allowed: 0,
                blocked: 0,
                penalized: false,
                penalty_until: None,
            },
            created_at: now,
        }
    }

    /// Whether the message bucket lets one message through.
    pub fn check_message_limit(&self) -> bool {
        self.message_limiter.check()
    }

    /// Whether the bandwidth bucket lets one cell through (the size of the
    /// message is not weighed).
    pub fn check_bandwidth_limit(&self, bytes: u32) -> bool {
        self.bandwidth_limiter.check()
    }

    /// Whether the subscription bucket lets one subscription through.
    pub fn check_subscription_limit(&self) -> bool {
        self.subscription_limiter.check()
    }

    /// Records a penalty: this limiter keeps no penalty state.
    pub fn penalize(&self, config: &RateLimitConfig, reason: &Vec<u8>) {
    }

    /// Whether the connection is under a penalty: never, as none is kept.
    pub fn is_penalized(&self) -> (r: bool)
        ensures
            !r,
    {
        false
    }

    /// Whether the connection's penalty is over at `now`: always, as none
    /// is kept.
    pub fn is_penalty_expired(&self, now: i64) -> (r: bool)
        ensures
            r,
    {
        true
    }

    /// Clears the penalty: nothing to clear.
    pub fn clear_penalty(&self) {
    }

    /// The connection's counters.
    pub fn get_stats(&self) -> (s: ConnectionRateLimitStats)
        ensures
            s == self.stats,
    {
        self.stats
    }
}

impl GlobalRateLimiter {
    /// Overall buckets: new connections, messages and bandwidth (in cells)
    /// per second, each with a burst of one second's worth.
    pub fn new(config: &RateLimitConfig) -> (g: Self)
        requires
            config_valid(*config),
        ensures
            g.total_connections_limiter.rate == config.max_connections_per_second,
            g.total_connections_limiter.burst == config.max_connections_per_second,
            g.total_messages_limiter.rate == config.max_total_messages_per_second,
            g.total_messages_limiter.burst == config.max_total_messages_per_second,
            g.total_bandwidth_limiter.rate == config.max_total_bandwidth_mb_per_second * CELLS_PER_MB,
            g.total_bandwidth_limiter.burst == config.max_total_bandwidth_mb_per_second * CELLS_PER_MB,
    {
        GlobalRateLimiter {
            total_connections_limiter: DirectLimiter::per_second(config.max_connections_per_second),
            total_messages_limiter: DirectLimiter::per_second(config.max_total_messages_per_second),
            total_bandwidth_limiter: DirectLimiter::per_second(config.max_total_bandwidth_mb_per_second * CELLS_PER_MB),
        }
    }

    /// Whether another connection may open now.
    pub fn can_add_connection(&self) -> bool {
        self.total_connections_limiter.check()
    }

    /// Whether another message may pass now.
    pub fn check_message_limit(&self) -> bool {
        self.total_messages_limiter.check()
    }

    /// Whether another cell of bandwidth may pass now.
    pub fn check_bandwidth_limit(&self, bytes: u32) -> bool {
        self.total_bandwidth_limiter.check()
    }
}

/// Ids of the connections that have buckets, in order.
pub open spec fn limiter_ids(s: Seq<ConnectionRateLimiter>) -> Seq<u128> {
    s.map_values(|l: ConnectionRateLimiter| l.connection_id)
}

/// Whether a connection has buckets.
pub open spec fn has_limiter(s: Seq<ConnectionRateLimiter>, id: u128) -> bool {
    exists|i: int| 0 <= i < s.len() && #[trigger] s[i].connection_id == id
}

/// Per-connection and overall buckets with request counters.
pub struct RateLimiter {
    pub connection_limiters: Vec<ConnectionRateLimiter>,
    pub global_limiter: GlobalRateLimiter,
    pub config: RateLimitConfig,
    pub stats: RateLimitStats,
}

/// What the limiter keeps true: its configuration builds buckets, no
/// connection has two sets of buckets, and every request counted was
/// either allowed or blocked.
pub open spec fn limiter_wf(r: RateLimiter) -> bool {
    &&& config_valid(r.config)
    &&& forall|i: int, j: int| 0 <= i < j < r.connection_limiters@.len()
        ==> r.connection_limiters@[i].connection_id != r.connection_limiters@[j].connection_id
    &&& r.stats.allowed_requests + r.stats.blocked_requests == r.stats.total_requests
}

/// Whether a request of a known connection passes, given what its buckets
/// answered: not under a penalty, and the connection's message and bandwidth
/// buckets and the overall message and bandwidth buckets all let it through.
/// (The buckets are asked in that order, and none after the first refusal;
/// an answer not asked is given as `false`.)
pub fn decide_request(penalized: bool, message_ok: bool, bandwidth_ok: bool, global_message_ok: bool, global_bandwidth_ok: bool) -> (r: bool)
    ensures
        r == (!penalized && message_ok && bandwidth_ok && global_message_ok && global_bandwidth_ok),
{
    !penalized && message_ok && bandwidth_ok && global_message_ok && global_bandwidth_ok
}

/// Index of the buckets of a connection.
fn find_limiter(s: &Vec<ConnectionRateLimiter>, id: u128) -> (r: Option<usize>)
    ensures
        r matches Some(i) ==> i < s@.len() && s@[i as int].connection_id == id,
        r is None ==> !has_limiter(s@, id),
{
    let mut i: usize = 0;
    while i < s.len()
        invariant
            i <= s@.len(),
            forall|k: int| 0 <= k < i ==> #[trigger] s@[k].connection_id != id,
        decreases s@.len() - i,
    {
        if s[i].connection_id == id {
            return Some(i);
        }
        i = i + 1;
    }
    None
}

impl RateLimiter {
    /// A limiter with the default configuration.
    pub fn new() -> (r: Self)
        ensures
            limiter_wf(r),
            r.connection_limiters@.len() == 0,
            r.stats == (RateLimitStats {
                total_requests: 0,
                allowed_requests: 0,
                blocked_requests: 0,
                penalized_connections: 0,
            }),
    {
        let config = RateLimitConfig::default();
        Self::with_config(config)
    }

    /// A limiter with the given configuration and no connections.
    pub fn with_config(config: RateLimitConfig) -> (r: Self)
        requires
            config_valid(config),
        ensures
            limiter_wf(r),
            r.config == config,
            global_buckets_from(r.global_limiter, config),
            r.connection_limiters@.len() == 0,
            r.stats == (RateLimitStats {
                total_requests: 0,
                allowed_requests: 0,
                blocked_requests: 0,
                penalized_connections: 0,
            }),
    {
        let global_limiter = GlobalRateLimiter::new(&config);
        RateLimiter {
            connection_limiters: Vec::new(),
            global_limiter,
            config,
            stats: RateLimitStats {
                total_requests: 0,
                allowed_requests: 0,
                blocked_requests: 0,
                penalized_connections: 0,
            },
        }
    }

    /// Gives a connection its buckets (fresh ones, if it had some), when
    /// the overall connection bucket lets it in.
    pub fn add_connection(&mut self, connection_id: u128, now: i64) -> (r: Result<(), RateLimitError>)
        requires
            limiter_wf(*old(self)),
        ensures
            limiter_wf(*final(self)),
            final(self).config == old(self).config,
            final(self).stats == old(self).stats,
            r is Err ==> r == Err::<(), RateLimitError>(RateLimitError::RateLimitExceeded)
                && final(self).connection_limiters@ == old(self).connection_limiters@,
            r is Ok ==> {
                &&& has_limiter(old(self).connection_limiters@, connection_id) ==> limiter_ids(final(self).connection_limiters@)
                    == limiter_ids(old(self).connection_limiters@)
                &&& !has_limiter(old(self).connection_limiters@, connection_id) ==> limiter_ids(final(self).connection_limiters@)
                    == limiter_ids(old(self).connection_limiters@).push(connection_id)
                &&& forall|i: int| 0 <= i < final(self).connection_limiters@.len()
                    && #[trigger] final(self).connection_limiters@[i].connection_id == connection_id
                    ==> final(self).connection_limiters@[i].stats == fresh_connection_stats()
                        && final(self).connection_limiters@[i].created_at == now
                        && buckets_from(final(self).connection_limiters@[i], old(self).config)
                &&& forall|i: int| 0 <= i < final(self).connection_limiters@.len()
                    && #[trigger] final(self).connection_limiters@[i].connection_id != connection_id
                    ==> final(self).connection_limiters@[i] == old(self).connection_limiters@[i]
            },
    {
        if !self.global_limiter.can_add_connection() {
            return Err(RateLimitError::RateLimitExceeded);
        }
        let limiter = ConnectionRateLimiter::new(connection_id, &self.config, now);
        let ghost s0 = self.connection_limiters@;
        match find_limiter(&self.connection_limiters, connection_id) {
            Some(i) => {
                self.connection_limiters.set(i, limiter);
                proof {
                    assert(limiter_ids(self.connection_limiters@) =~= limiter_ids(s0));
                    assert forall|a: int| 0 <= a < self.connection_limiters@.len()
                        && #[trigger] self.connection_limiters@[a].connection_id == connection_id implies a == i as int by {
                        if a != i as int {
                            if a < i as int {
                                assert(s0[a].connection_id != s0[i as int].connection_id);
                            } else {
                                assert(s0[i as int].connection_id != s0[a].connection_id);
                            }
                        }
                    }
                }
            },
            None => {
                self.connection_limiters.push(limiter);
                proof {
                    assert(limiter_ids(self.connection_limiters@) =~= limiter_ids(s0).push(connection_id));
                    assert forall|a: int| 0 <= a < s0.len() implies #[trigger] s0[a].connection_id != connection_id by {
                        if s0[a].connection_id == connection_id {
                            assert(has_limiter(s0, connection_id));
                        }
                    }
                }
            },
        }
        Ok(())
    }

    /// Takes a connection's buckets away.
    pub fn remove_connection(&mut self, connection_id: u128)
        requires
            limiter_wf(*old(self)),
        ensures
            limiter_wf(*final(self)),
            final(self).config == old(self).config,
            final(self).stats == old(self).stats,
            !has_limiter(final(self).connection_limiters@, connection_id),
            limiter_ids(final(self).connection_limiters@) == limiter_ids(old(self).connection_limiters@).filter(
                |id: u128| id != connection_id,
            ),
    {
        let ghost s0 = self.connection_limiters@;
        match find_limiter(&self.connection_limiters, connection_id) {
            None => {
                proof {
                    lemma_filter_absent(limiter_ids(s0), connection_id);
                }
            },
            Some(i) => {
                let _gone = self.connection_limiters.remove(i);
                proof {
                    assert forall|a: int| 0 <= a < s0.len() && a != i as int implies #[trigger] s0[a].connection_id != connection_id by {
                        if a < i as int {
                            assert(s0[a].connection_id != s0[i as int].connection_id);
                        } else {
                            assert(s0[i as int].connection_id != s0[a].connection_id);
                        }
                    }
                    assert forall|a: int| 0 <= a < self.connection_limiters@.len() implies #[trigger] self.connection_limiters@[a].connection_id != connection_id by {
                        if a < i as int {
                            assert(self.connection_limiters@[a] == s0[a]);
                        } else {
                            assert(self.connection_limiters@[a] == s0[a + 1]);
                        }
                    }
                    lemma_filter_remove_unique(limiter_ids(s0), i as int, connection_id);
                    assert(limiter_ids(self.connection_limiters@) =~= limiter_ids(s0).remove(i as int));
                }
            },
        }
    }

    /// Counts a request and decides it: a known connection passes when its
    /// message and bandwidth buckets and the overall message and bandwidth
    /// buckets all let it through (checked in that order, stopping at the
    /// first refusal); an unknown connection passes when it can be given
    /// buckets, and is given them.
    pub fn check_limit(&mut self, connection_id: u128, now: i64) -> (r: bool)
        requires
            limiter_wf(*old(self)),
            old(self).stats.total_requests < u64::MAX,
        ensures
            limiter_wf(*final(self)),
            final(self).config == old(self).config,
            final(self).stats.total_requests == old(self).stats.total_requests + 1,
            final(self).stats.allowed_requests == old(self).stats.allowed_requests + if r { 1int } else { 0int },
            final(self).stats.blocked_requests == old(self).stats.blocked_requests + if r { 0int } else { 1int },
            final(self).stats.penalized_connections == old(self).stats.penalized_connections,
            has_limiter(old(self).connection_limiters@, connection_id) ==> final(self).connection_limiters@
                == old(self).connection_limiters@,
            !has_limiter(old(self).connection_limiters@, connection_id) && !r ==> final(self).connection_limiters@
                == old(self).connection_limiters@,
            !has_limiter(old(self).connection_limiters@, connection_id) && r ==> limiter_ids(final(self).connection_limiters@)
                == limiter_ids(old(self).connection_limiters@).push(connection_id),
    {
        let result = match find_limiter(&self.connection_limiters, connection_id) {
            Some(i) => {
                let limiter = &self.connection_limiters[i];
                let penalized = limiter.is_penalized();
                let message_ok = !penalized && limiter.check_message_limit();
                let bandwidth_ok = message_ok && limiter.check_bandwidth_limit(1024);
                let global_message_ok = bandwidth_ok && self.global_limiter.check_message_limit();
                let global_bandwidth_ok = global_message_ok && self.global_limiter.check_bandwidth_limit(1024);
                decide_request(penalized, message_ok, bandwidth_ok, global_message_ok, global_bandwidth_ok)
            },
            None => {
                match self.add_connection(connection_id, now) {
                    Err(_) => false,
                    Ok(()) => true,
                }
            },
        };
        self.stats.total_requests = self.stats.total_requests + 1;
        if result {
            self.stats.allowed_requests = self.stats.allowed_requests + 1;
        } else {
            self.stats.blocked_requests = self.stats.blocked_requests + 1;
        }
        result
    }

    /// Whether a connection holding `current_subscriptions` may add one:
    /// not at the configured maximum, not for an unknown connection, and
    /// otherwise as its subscription bucket answers.
    pub fn check_subscription_limit(&self, connection_id: u128, current_subscriptions: usize) -> (r: bool)
        ensures
            current_subscriptions >= self.config.max_subscriptions_per_connection ==> !r,
            !has_limiter(self.connection_limiters@, connection_id) ==> !r,
    {
        if current_subscriptions as u64 >= self.config.max_subscriptions_per_connection as u64 {
            return false;
        }
        match find_limiter(&self.connection_limiters, connection_id) {
            Some(i) => self.connection_limiters[i].check_subscription_limit(),
            None => false,
        }
    }

    /// Penalizes a known connection and counts it.
    pub fn penalize_connection(&mut self, connection_id: u128, reason: &Vec<u8>)
        requires
            limiter_wf(*old(self)),
            old(self).stats.penalized_connections < u64::MAX,
        ensures
            limiter_wf(*final(self)),
            final(self).config == old(self).config,
            final(self).connection_limiters@ == old(self).connection_limiters@,
            final(self).stats == (RateLimitStats {
                penalized_connections: if has_limiter(old(self).connection_limiters@, connection_id) {
                    (old(self).stats.penalized_connections + 1) as u64
                } else {
                    old(self).stats.penalized_connections
                },
                ..old(self).stats
            }),
    {
        match find_limiter(&self.connection_limiters, connection_id) {
            Some(i) => {
                self.connection_limiters[i].penalize(&self.config, reason);
                self.stats.penalized_connections = self.stats.penalized_connections + 1;
            },
            None => {},
        }
    }

    /// Whether an address is on the whitelist.
    pub fn is_whitelisted(&self, ip: &Vec<u8>) -> (r: bool)
        ensures
            r == holds_symbol(self.config.whitelist_ips@, ip@),
    {
        let found = find_symbol(&self.config.whitelist_ips, ip);
        proof {
            lemma_symbol_index_bound(self.config.whitelist_ips@, ip@);
            if found is None && holds_symbol(self.config.whitelist_ips@, ip@) {
                let i = choose|i: int| 0 <= i < self.config.whitelist_ips@.len() && #[trigger] self.config.whitelist_ips@[i]@ == ip@;
                lemma_symbol_index_some(self.config.whitelist_ips@, ip@, i);
            }
        }
        found.is_some()
    }

    /// The counters of a connection's buckets, if it has them.
    pub fn get_connection_stats(&self, connection_id: u128) -> (r: Option<ConnectionRateLimitStats>)
        ensures
            !has_limiter(self.connection_limiters@, connection_id) ==> r is None,
            r matches Some(s) ==> exists|i: int| 0 <= i < self.connection_limiters@.len()
                && #[trigger] self.connection_limiters@[i].connection_id == connection_id
                && self.connection_limiters@[i].stats == s,
            has_limiter(self.connection_limiters@, connection_id) ==> r is Some,
    {
        match find_limiter(&self.connection_limiters, connection_id) {
            Some(i) => Some(self.connection_limiters[i].get_stats()),
            None => None,
        }
    }

    /// The request counters.
    pub fn get_global_stats(&self) -> (s: RateLimitStats)
        ensures
            s == self.stats,
    {
        self.stats
    }

    /// Clears the penalties that are over at `now` and counts them: as no
    /// penalty is kept, every connection counts.
    pub fn cleanup_expired_penalties(&self, now: i64) -> (cleaned: usize)
        ensures
            cleaned == self.connection_limiters@.len(),
    {
        let mut cleaned: usize = 0;
        let mut i: usize = 0;
        while i < self.connection_limiters.len()
            invariant
                i <= self.connection_limiters@.len(),
                cleaned == i,
            decreases self.connection_limiters@.len() - i,
        {
            let limiter = &self.connection_limiters[i];
            if limiter.is_penalty_expired(now) {
                limiter.clear_penalty();
                cleaned = cleaned + 1;
            }
            i = i + 1;
        }
        cleaned
    }

    /// Replaces the configuration (buckets made from now on follow it).
    pub fn update_config(&mut self, new_config: RateLimitConfig)
        requires
            limiter_wf(*old(self)),
            config_valid(new_config),
        ensures
            limiter_wf(*final(self)),
            final(self).config == new_config,
            final(self).stats == old(self).stats,
            final(self).connection_limiters@ == old(self).connection_limiters@,
    {
        self.config = new_config;
    }
}

/// Dropping an id that is absent changes nothing.
proof fn lemma_filter_absent(ids: Seq<u128>, id: u128)
    requires
        forall|k: int| 0 <= k < ids.len() ==> ids[k] != id,
    ensures
        ids.filter(|x: u128| x != id) == ids,
    decreases ids.len(),
{
    reveal(Seq::filter);
    if ids.len() > 0 {
        lemma_filter_absent(ids.drop_last(), id);
        assert(ids.drop_last().push(ids.last()) =~= ids);
    }
}

/// Dropping an id held once is removing its one position.
proof fn lemma_filter_remove_unique(ids: Seq<u128>, i: int, id: u128)
    requires
        0 <= i < ids.len(),
        ids[i] == id,
        forall|k: int| 0 <= k < ids.len() && k != i ==> ids[k] != id,
    ensures
        ids.filter(|x: u128| x != id) == ids.remove(i),
    decreases ids.len(),
{
    reveal(Seq::filter);
    if i == ids.len() - 1 {
        lemma_filter_absent(ids.drop_last(), id);
        assert(ids.remove(i) =~= ids.drop_last());
    } else {
        lemma_filter_remove_unique(ids.drop_last(), i, id);
        assert(ids.remove(i) =~= ids.drop_last().remove(i).push(ids.last()));
    }
}

} // verus!
