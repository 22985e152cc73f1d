//! Fee history: a bounded log of fee adjustments, range queries, pagination,
//! statistics, retention cleanup, and per-user fee snapshots.
use vstd::prelude::*;
use crate::congestion::{CongestionLevel, NetworkMetrics};
use crate::dynamic_fee::FeeAdjustmentResult;
use crate::emergency::AccountId;
use crate::isqrt::{integer_sqrt_u64, is_floor_sqrt};

verus! {

/// Reason for a fee adjustment.
#[derive(Clone, Copy, Debug, PartialEq, Eq, Structural)]
pub enum AdjustmentReason {
    AutomaticCongestionAdjustment,
    ManualAdminAdjustment,
    EmergencyOverride,
    EmergencyRecovery,
    ScheduledMaintenance,
    SystemInitialization,
}

/// Text of the short tag of an adjustment reason.
pub open spec fn reason_tag_text(e: AdjustmentReason) -> Seq<char> {
    match e {
        AdjustmentReason::AutomaticCongestionAdjustment => "auto"@,
        AdjustmentReason::ManualAdminAdjustment => "admin"@,
        AdjustmentReason::EmergencyOverride => "emerg"@,
        AdjustmentReason::EmergencyRecovery => "recov"@,
        AdjustmentReason::ScheduledMaintenance => "maint"@,
        AdjustmentReason::SystemInitialization => "init"@,
    }
}

impl AdjustmentReason {
    /// Short tag of the reason, as used in history summaries.
    pub fn short_tag(&self) -> (r: &'static str)
        ensures
            r@ == reason_tag_text(*self),
    {
        match self {
            AdjustmentReason::AutomaticCongestionAdjustment => "auto",
            AdjustmentReason::ManualAdminAdjustment => "admin",
            AdjustmentReason::EmergencyOverride => "emerg",
            AdjustmentReason::EmergencyRecovery => "recov",
            AdjustmentReason::ScheduledMaintenance => "maint",
            AdjustmentReason::SystemInitialization => "init",
        }
    }
}

/// Who triggered an adjustment.
#[derive(Clone, Copy, Debug, PartialEq, Eq, Structural)]
pub enum TriggeredBy {
    /// System initialization
    Init,
    /// Automatic congestion adjustment
    Auto,
    /// An administrator
    Admin(AccountId),
}

/// One recorded fee adjustment.
#[derive(Clone, Copy, Debug, PartialEq, Eq, Structural)]
pub struct FeeHistoryEntry {
    pub timestamp: u64,
    pub fee_bps: u32,
    pub previous_fee_bps: u32,
    pub congestion_level: CongestionLevel,
    pub network_metrics: NetworkMetrics,
    pub adjustment_reason: AdjustmentReason,
    pub triggered_by: TriggeredBy,
}

/// Fee statistics over a period.
#[derive(Clone, Copy, Debug, PartialEq, Eq, Structural)]
pub struct FeeHistoryStats {
    pub avg_fee_bps: u32,
    pub min_fee_bps: u32,
    pub max_fee_bps: u32,
    pub adjustment_count: u32,
    pub period_days: u32,
    /// Floor of the standard deviation of the fees
    pub fee_volatility: u32,
    pub emergency_override_count: u32,
    pub period_seconds: u64,
}

/// Fee seen by a user at a time.
#[derive(Clone, Copy, Debug, PartialEq, Eq, Structural)]
pub struct FeeSnapshot {
    pub timestamp: u64,
    pub fee_bps: u32,
    pub congestion_level: CongestionLevel,
}

/// A user's recorded fee snapshot.
#[derive(Clone, Copy, Debug, PartialEq, Eq, Structural)]
pub struct UserFeeRecord {
    pub user: AccountId,
    pub snapshot: FeeSnapshot,
}

/// Persistent storage of the fee history: the log slot and the user-fee map
/// slot (a list of user/snapshot pairs with one pair per user), each possibly
/// unset.
#[derive(Clone, Debug)]
pub struct FeeHistoryStorage {
    pub history: Option<Vec<FeeHistoryEntry>>,
    pub user_fees: Option<Vec<UserFeeRecord>>,
}

impl FeeHistoryStorage {
    /// The history log as read (empty when unset).
    pub open spec fn log(self) -> Seq<FeeHistoryEntry> {
        match self.history {
            Some(v) => v@,
            None => Seq::empty(),
        }
    }

    /// The user-fee pairs as read (empty when unset).
    pub open spec fn user_pairs(self) -> Seq<UserFeeRecord> {
        match self.user_fees {
            Some(v) => v@,
            None => Seq::empty(),
        }
    }

    /// Empty storage.
    pub fn new() -> (s: Self)
        ensures
            s.history is None,
            s.user_fees is None,
    {
        FeeHistoryStorage { history: None, user_fees: None }
    }
}

/// Maximum number of history entries kept.
pub open spec fn max_history() -> int {
    10000
}

/// Entries with a timestamp in `[start, end]`, in order.
pub open spec fn range_of(log: Seq<FeeHistoryEntry>, start: u64, end: u64) -> Seq<FeeHistoryEntry> {
    log.filter(|e: FeeHistoryEntry| start <= e.timestamp && e.timestamp <= end)
}

/// The log after appending an entry and dropping the oldest entries beyond
/// the maximum.
pub open spec fn appended_log(log: Seq<FeeHistoryEntry>, e: FeeHistoryEntry) -> Seq<FeeHistoryEntry> {
    let h = log.push(e);
    if h.len() > max_history() {
        h.subrange(h.len() - max_history(), h.len() as int)
    } else {
        h
    }
}

pub open spec fn sum_fees(s: Seq<FeeHistoryEntry>) -> int
    decreases s.len(),
{
    if s.len() == 0 { 0 } else { sum_fees(s.drop_last()) + s.last().fee_bps }
}

pub open spec fn min_fee(s: Seq<FeeHistoryEntry>) -> int
    decreases s.len(),
{
    if s.len() == 0 {
        u32::MAX as int
    } else {
        let m = min_fee(s.drop_last());
        if s.last().fee_bps < m { s.last().fee_bps as int } else { m }
    }
}

pub open spec fn max_fee(s: Seq<FeeHistoryEntry>) -> int
    decreases s.len(),
{
    if s.len() == 0 {
        0
    } else {
        let m = max_fee(s.drop_last());
        if s.last().fee_bps > m { s.last().fee_bps as int } else { m }
    }
}

pub open spec fn count_reason(s: Seq<FeeHistoryEntry>, r: AdjustmentReason) -> int
    decreases s.len(),
{
    if s.len() == 0 {
        0
    } else {
        count_reason(s.drop_last(), r) + if s.last().adjustment_reason == r { 1int } else { 0 }
    }
}

pub open spec fn abs_diff(a: int, b: int) -> int {
    if a > b { a - b } else { b - a }
}

/// Sum of squared deviations of the fees from `avg`.
pub open spec fn sum_sq_dev(s: Seq<FeeHistoryEntry>, avg: int) -> int
    decreases s.len(),
{
    if s.len() == 0 {
        0
    } else {
        sum_sq_dev(s.drop_last(), avg) + abs_diff(s.last().fee_bps as int, avg) * abs_diff(s.last().fee_bps as int, avg)
    }
}

/// Window of a statistics query: the last `period` seconds up to `now`.
pub open spec fn stats_window(log: Seq<FeeHistoryEntry>, period: u64, now: u64) -> Seq<FeeHistoryEntry> {
    let start = if now >= period { (now - period) as u64 } else { 0u64 };
    range_of(log, start, now)
}

/// The statistics computation fits in 64-bit arithmetic: the squared
/// deviations add up below the 64-bit maximum.
pub open spec fn stats_fit(log: Seq<FeeHistoryEntry>, period: u64, now: u64) -> bool {
    let w = stats_window(log, period, now);
    w.len() > 0 ==> sum_sq_dev(w, sum_fees(w) / w.len() as int) < u64::MAX
}

/// Entries at or after a cutoff.
pub open spec fn retained(log: Seq<FeeHistoryEntry>, cutoff: u64) -> Seq<FeeHistoryEntry> {
    log.filter(|e: FeeHistoryEntry| e.timestamp >= cutoff)
}

/// Most recent snapshot recorded for a user (the last pair with that user).
pub open spec fn user_fee_lookup(s: Seq<UserFeeRecord>, user: AccountId) -> Option<FeeSnapshot>
    decreases s.len(),
{
    if s.len() == 0 {
        None
    } else if s.last().user == user {
        Some(s.last().snapshot)
    } else {
        user_fee_lookup(s.drop_last(), user)
    }
}

/// Number of pages of a given size needed for `len` entries.
pub open spec fn total_pages(len: int, page_size: int) -> int {
    (len + page_size - 1) / page_size
}

/// Fee history manager.
pub struct FeeHistoryManager;

impl FeeHistoryManager {
    /// Maximum history entries kept
    pub const MAX_HISTORY_ENTRIES: usize = 10000;
    /// Statistics window (seconds)
    pub const STATS_WINDOW_SECONDS: u64 = 86400;

    fn read_log(storage: &FeeHistoryStorage) -> (v: Vec<FeeHistoryEntry>)
        ensures
            v@ == storage.log(),
    {
        match &storage.history {
            Some(v) => v.clone(),
            None => Vec::new(),
        }
    }

    /// Record an adjustment; the log keeps at most the 10000 newest entries.
    pub fn record_fee_adjustment(
        storage: &mut FeeHistoryStorage,
        result: &FeeAdjustmentResult,
        previous_fee_bps: u32,
        metrics: &NetworkMetrics,
        triggered_by: TriggeredBy,
        reason: AdjustmentReason,
    )
        ensures
            final(storage).history is Some,
            final(storage).log() == appended_log(old(storage).log(), FeeHistoryEntry {
                timestamp: result.calculated_at,
                fee_bps: result.adjusted_fee_bps,
                previous_fee_bps,
                congestion_level: result.congestion_level,
                network_metrics: *metrics,
                adjustment_reason: reason,
                triggered_by,
            }),
            final(storage).user_fees == old(storage).user_fees,
    {
        let entry = FeeHistoryEntry {
            timestamp: result.calculated_at,
            fee_bps: result.adjusted_fee_bps,
            previous_fee_bps,
            congestion_level: result.congestion_level,
            network_metrics: *metrics,
            adjustment_reason: reason,
            triggered_by,
        };
        let mut history = Self::read_log(storage);
        history.push(entry);
        let ghost h: Seq<FeeHistoryEntry> = history@;
        let ghost dropped: int = 0;
        while history.len() > Self::MAX_HISTORY_ENTRIES
            invariant
                0 <= dropped <= h.len(),
                history@ == h.subrange(dropped, h.len() as int),
                h.len() > max_history() ==> dropped <= h.len() - max_history(),
                h.len() <= max_history() ==> dropped == 0,
            decreases history.len(),
        {
            history.remove(0);
            proof {
                dropped = dropped + 1;
            }
        }
        proof {
            assert(h.subrange(0, h.len() as int) == h);
        }
        storage.history = Some(history);
    }

    /// Entries with a timestamp in `[start_time, end_time]`, in log order.
    pub fn get_history_range(storage: &FeeHistoryStorage, start_time: u64, end_time: u64) -> (r: Vec<FeeHistoryEntry>)
        ensures
            r@ == range_of(storage.log(), start_time, end_time),
    {
        let history = Self::read_log(storage);
        let ghost src: Seq<FeeHistoryEntry> = history@;
        let mut result: Vec<FeeHistoryEntry> = Vec::new();
        let mut i: usize = 0;
        while i < history.len()
            invariant
                i <= history.len(),
                history@ == src,
                result@ == range_of(src.take(i as int), start_time, end_time),
            decreases history.len() - i,
        {
            let e = history[i];
            proof {
                assert(src.take(i as int + 1).drop_last() == src.take(i as int));
                reveal_with_fuel(Seq::filter, 1);
            }
            if e.timestamp >= start_time && e.timestamp <= end_time {
                result.push(e);
            }
            i = i + 1;
        }
        proof {
            assert(src.take(src.len() as int) == src);
        }
        result
    }

    /// The `limit` most recent entries (all of them when fewer), oldest first.
    pub fn get_recent_history(storage: &FeeHistoryStorage, limit: u32) -> (r: Vec<FeeHistoryEntry>)
        ensures
            r@ == (if storage.log().len() > limit {
                storage.log().skip(storage.log().len() - limit)
            } else {
                storage.log()
            }),
    {
        let history = Self::read_log(storage);
        let start_idx: usize = if history.len() > limit as usize {
            history.len() - limit as usize
        } else {
            0
        };
        let mut result: Vec<FeeHistoryEntry> = Vec::new();
        let mut i: usize = start_idx;
        while i < history.len()
            invariant
                start_idx <= i <= history.len(),
                history@ == storage.log(),
                result@ == history@.subrange(start_idx as int, i as int),
            decreases history.len() - i,
        {
            result.push(history[i]);
            i = i + 1;
        }
        proof {
            assert(history@.subrange(0, history@.len() as int) == history@);
        }
        result
    }

    /// Statistics over the last `period_seconds` seconds up to `current_time`:
    /// average, minimum, maximum, count, emergency count and the floor of the
    /// standard deviation of the fees.
    pub fn calculate_statistics(storage: &FeeHistoryStorage, period_seconds: u64, current_time: u64) -> (r: FeeHistoryStats)
        requires
            storage.log().len() <= u32::MAX,
            stats_fit(storage.log(), period_seconds, current_time),
        ensures
            ({
                let w = stats_window(storage.log(), period_seconds, current_time);
                &&& r.period_days == (period_seconds / 86400) as u32
                &&& r.period_seconds == period_seconds
                &&& r.adjustment_count == w.len()
                &&& w.len() == 0 ==> r.avg_fee_bps == 0 && r.min_fee_bps == 0 && r.max_fee_bps == 0
                    && r.fee_volatility == 0 && r.emergency_override_count == 0
                &&& w.len() > 0 ==> {
                    &&& r.avg_fee_bps == sum_fees(w) / w.len() as int
                    &&& r.min_fee_bps == min_fee(w)
                    &&& r.max_fee_bps == max_fee(w)
                    &&& r.emergency_override_count == count_reason(w, AdjustmentReason::EmergencyOverride)
                    &&& forall|i: int| 0 <= i < w.len() ==> r.min_fee_bps <= #[trigger] w[i].fee_bps <= r.max_fee_bps
                    &&& exists|i: int| 0 <= i < w.len() && #[trigger] w[i].fee_bps == r.min_fee_bps
                    &&& exists|i: int| 0 <= i < w.len() && #[trigger] w[i].fee_bps == r.max_fee_bps
                    &&& r.min_fee_bps <= r.avg_fee_bps <= r.max_fee_bps
                    &&& (forall|i: int| 0 <= i < w.len() ==> #[trigger] w[i].fee_bps == w[0].fee_bps)
                        ==> r.avg_fee_bps == w[0].fee_bps && r.fee_volatility == 0
                    &&& r.emergency_override_count == w.filter(|e: FeeHistoryEntry| e.adjustment_reason == AdjustmentReason::EmergencyOverride).len()
                    &&& is_floor_sqrt(sum_sq_dev(w, r.avg_fee_bps as int) / w.len() as int, r.fee_volatility as int)
                }
            }),
    {
        let start_time: u64 = current_time.saturating_sub(period_seconds);
        let history = Self::get_history_range(storage, start_time, current_time);
        let ghost w: Seq<FeeHistoryEntry> = history@;
        proof {
            assert(w == stats_window(storage.log(), period_seconds, current_time));
            lemma_filter_len_le(storage.log(), |e: FeeHistoryEntry| start_time <= e.timestamp && e.timestamp <= current_time);
        }
        let period_days: u64 = period_seconds / 86400;
        if history.len() == 0 {
            return FeeHistoryStats {
                avg_fee_bps: 0,
                min_fee_bps: 0,
                max_fee_bps: 0,
                adjustment_count: 0,
                period_days: period_days as u32,
                fee_volatility: 0,
                emergency_override_count: 0,
                period_seconds,
            };
        }
        let n: usize = history.len();
        let mut total_fee: u64 = 0;
        let mut min_f: u32 = u32::MAX;
        let mut max_f: u32 = 0;
        let mut emergency_count: u32 = 0;
        let mut i: usize = 0;
        while i < n
            invariant
                n == history.len(),
                n <= u32::MAX,
                i <= n,
                history@ == w,
                total_fee == sum_fees(w.take(i as int)),
                min_f == min_fee(w.take(i as int)),
                max_f == max_fee(w.take(i as int)),
                emergency_count == count_reason(w.take(i as int), AdjustmentReason::EmergencyOverride),
                sum_fees(w.take(i as int)) <= i * u32::MAX,
                count_reason(w.take(i as int), AdjustmentReason::EmergencyOverride) <= i,
            decreases n - i,
        {
            let e = history[i];
            proof {
                assert(w.take(i as int + 1).drop_last() == w.take(i as int));
                assert(w.take(i as int + 1).last() == e);
                assert((i as int) * (u32::MAX as int) + u32::MAX as int <= (u32::MAX as int) * (u32::MAX as int)) by (nonlinear_arith)
                    requires i < u32::MAX;
            }
            total_fee = total_fee + e.fee_bps as u64;
            if e.fee_bps < min_f {
                min_f = e.fee_bps;
            }
            if e.fee_bps > max_f {
                max_f = e.fee_bps;
            }
            if e.adjustment_reason == AdjustmentReason::EmergencyOverride {
                emergency_count = emergency_count + 1;
            }
            i = i + 1;
        }
        proof {
            assert(w.take(n as int) == w);
            lemma_reason_count_is_filter(w, AdjustmentReason::EmergencyOverride,
                |e: FeeHistoryEntry| e.adjustment_reason == AdjustmentReason::EmergencyOverride);
            lemma_fee_extremes(w);
            let ln: int = w.len() as int;
            assert(min_fee(w) <= sum_fees(w) / ln <= max_fee(w)) by (nonlinear_arith)
                requires min_fee(w) * ln <= sum_fees(w) <= max_fee(w) * ln, ln > 0;
        }
        let avg: u64 = total_fee / (n as u64);
        proof {
            lemma_avg_bound(w);
        }
        let avg_fee: u32 = avg as u32;
        let mut variance_sum: u64 = 0;
        let mut j: usize = 0;
        while j < n
            invariant
                n == history.len(),
                j <= n,
                history@ == w,
                avg_fee as int == sum_fees(w) / w.len() as int,
                variance_sum == sum_sq_dev(w.take(j as int), avg_fee as int),
                sum_sq_dev(w, avg_fee as int) < u64::MAX,
            decreases n - j,
        {
            let e = history[j];
            proof {
                assert(w.take(j as int + 1).drop_last() == w.take(j as int));
                assert(w.take(j as int + 1).last() == e);
                lemma_sum_sq_dev_prefix_le(w, avg_fee as int, j as int + 1);
            }
            let diff: u64 = if e.fee_bps > avg_fee {
                (e.fee_bps - avg_fee) as u64
            } else {
                (avg_fee - e.fee_bps) as u64
            };
            proof {
                assert(diff as int * diff as int <= u32::MAX as int * u32::MAX as int) by (nonlinear_arith)
                    requires diff <= u32::MAX;
            }
            variance_sum = variance_sum + diff * diff;
            j = j + 1;
        }
        proof {
            assert(w.take(n as int) == w);
        }
        let variance: u64 = variance_sum / (n as u64);
        let volatility: u64 = Self::integer_sqrt(variance);
        proof {
            assert(volatility as int * volatility as int <= variance as int);
            assert(volatility <= u32::MAX) by (nonlinear_arith)
                requires volatility as int * volatility as int <= variance as int, variance <= u64::MAX;
            if forall|i: int| 0 <= i < w.len() ==> #[trigger] w[i].fee_bps == w[0].fee_bps {
                assert(min_fee(w) == w[0].fee_bps && max_fee(w) == w[0].fee_bps);
                assert(avg_fee == w[0].fee_bps);
                lemma_equal_fees_no_deviation(w, avg_fee as int);
                assert(variance == 0);
                assert(volatility == 0) by (nonlinear_arith)
                    requires volatility as int * volatility as int <= variance as int, variance == 0;
            }
        }
        FeeHistoryStats {
            avg_fee_bps: avg_fee,
            min_fee_bps: min_f,
            max_fee_bps: max_f,
            adjustment_count: n as u32,
            period_days: period_days as u32,
            fee_volatility: volatility as u32,
            emergency_override_count: emergency_count,
            period_seconds,
        }
    }

    /// Record a user's fee snapshot, replacing any earlier one.
    pub fn record_user_fee(storage: &mut FeeHistoryStorage, user: AccountId, snapshot: FeeSnapshot)
        ensures
            user_fee_lookup(final(storage).user_pairs(), user) == Some(snapshot),
            forall|other: AccountId| other != user ==> user_fee_lookup(final(storage).user_pairs(), other)
                == user_fee_lookup(old(storage).user_pairs(), other),
            final(storage).history == old(storage).history,
    {
        let pairs: Vec<UserFeeRecord> = match &storage.user_fees {
            Some(v) => v.clone(),
            None => Vec::new(),
        };
        let ghost src: Seq<UserFeeRecord> = pairs@;
        proof {
            assert(src == old(storage).user_pairs());
        }
        let mut kept: Vec<UserFeeRecord> = Vec::new();
        let mut i: usize = 0;
        while i < pairs.len()
            invariant
                i <= pairs.len(),
                pairs@ == src,
                kept@ == src.take(i as int).filter(|p: UserFeeRecord| p.user != user),
            decreases pairs.len() - i,
        {
            let p = pairs[i];
            proof {
                assert(src.take(i as int + 1).drop_last() == src.take(i as int));
                reveal_with_fuel(Seq::filter, 1);
            }
            if p.user != user {
                kept.push(p);
            }
            i = i + 1;
        }
        proof {
            assert(src.take(src.len() as int) == src);
            assert forall|other: AccountId| other != user implies user_fee_lookup(
                kept@.push(UserFeeRecord { user, snapshot }),
                other,
            ) == user_fee_lookup(src, other) by {
                assert(kept@.push(UserFeeRecord { user, snapshot }).drop_last() == kept@);
                lemma_lookup_filter(src, user, other);
            }
        }
        kept.push(UserFeeRecord { user, snapshot });
        storage.user_fees = Some(kept);
    }

    /// The snapshot recorded for a user, if any.
    pub fn get_user_fee(storage: &FeeHistoryStorage, user: AccountId) -> (r: Option<FeeSnapshot>)
        ensures
            r == user_fee_lookup(storage.user_pairs(), user),
    {
        let pairs: &Vec<UserFeeRecord> = match &storage.user_fees {
            Some(v) => v,
            None => {
                return None;
            },
        };
        let mut i: usize = pairs.len();
        proof {
            assert(pairs@.take(pairs@.len() as int) == pairs@);
        }
        while i > 0
            invariant
                i <= pairs.len(),
                pairs@ == storage.user_pairs(),
                user_fee_lookup(pairs@, user) == user_fee_lookup(pairs@.take(i as int), user),
            decreases i,
        {
            let p = pairs[i - 1];
            proof {
                assert(pairs@.take(i as int).drop_last() == pairs@.take(i as int - 1));
                assert(pairs@.take(i as int).last() == p);
            }
            if p.user == user {
                return Some(p.snapshot);
            }
            i = i - 1;
        }
        None
    }

    /// A page of the log and the number of pages. Pages count from 1:
    /// page `p` holds entries `(p - 1) * page_size` up to (not including)
    /// `p * page_size`; page 0 and pages past the last are empty.
    pub fn get_fee_changes_paginated(storage: &FeeHistoryStorage, page: u32, page_size: u32) -> (r: (Vec<FeeHistoryEntry>, u32))
        requires
            page_size > 0,
            storage.log().len() + page_size <= u32::MAX,
        ensures
            r.1 == total_pages(storage.log().len() as int, page_size as int),
            r.0@ == (if 1 <= page && (page as int) <= total_pages(storage.log().len() as int, page_size as int) {
                storage.log().subrange((page as int - 1) * page_size, if page as int * page_size
                    <= storage.log().len() { page as int * page_size } else { storage.log().len() as int })
            } else {
                Seq::<FeeHistoryEntry>::empty()
            }),
    {
        let history = Self::read_log(storage);
        let len: u32 = history.len() as u32;
        assert(len == history.len());
        let total: u32 = (len + page_size - 1) / page_size;
        if page == 0 || page > total {
            return (Vec::new(), total);
        }
        proof {
            assert((page as u64 - 1) * (page_size as u64) <= 0xffff_ffff * 0xffff_ffffu64) by (nonlinear_arith)
                requires page as u64 - 1 <= 0xffff_ffffu64, page_size as u64 <= 0xffff_ffffu64;
            assert((page as u64) * (page_size as u64) <= 0xffff_ffff * 0xffff_ffffu64) by (nonlinear_arith)
                requires page as u64 <= 0xffff_ffffu64, page_size as u64 <= 0xffff_ffffu64;
        }
        let start: u64 = (page as u64 - 1) * page_size as u64;
        let full_end: u64 = page as u64 * page_size as u64;
        let end: u64 = if full_end <= len as u64 { full_end } else { len as u64 };
        proof {
            assert(start as int == (page as int - 1) * page_size) by (nonlinear_arith)
                requires start as int == (page as int - 1) * (page_size as int);
            assert(total as int * page_size <= len + page_size - 1) by (nonlinear_arith)
                requires total as int == (len + page_size - 1) / page_size as int, page_size > 0;
            assert((page as int - 1) * page_size < len) by (nonlinear_arith)
                requires 1 <= page <= total, total as int * page_size <= len + page_size - 1, page_size > 0;
            assert((page as int - 1) * page_size < page as int * page_size) by (nonlinear_arith)
                requires page_size > 0;
        }
        let mut result: Vec<FeeHistoryEntry> = Vec::new();
        let mut i: u64 = start;
        while i < end
            invariant
                start <= i <= end,
                end <= len,
                len == history.len(),
                history@ == storage.log(),
                result@ == history@.subrange(start as int, i as int),
            decreases end - i,
        {
            result.push(history[i as usize]);
            proof {
                assert(history@.subrange(start as int, i as int + 1) == history@.subrange(start as int, i as int).push(history@[i as int]));
            }
            i = i + 1;
        }
        (result, total)
    }

    /// Timestamp, fee and reason of the `num_entries` most recent entries.
    pub fn get_history_summary(storage: &FeeHistoryStorage, num_entries: u32) -> (r: Vec<(u64, u32, AdjustmentReason)>)
        ensures
            ({
                let recent = if storage.log().len() > num_entries {
                    storage.log().skip(storage.log().len() - num_entries)
                } else {
                    storage.log()
                };
                &&& r@.len() == recent.len()
                &&& forall|k: int| 0 <= k < recent.len() ==> #[trigger] r@[k] == (recent[k].timestamp, recent[k].fee_bps, recent[k].adjustment_reason)
            }),
    {
        let history = Self::get_recent_history(storage, num_entries);
        let mut result: Vec<(u64, u32, AdjustmentReason)> = Vec::new();
        let mut i: usize = 0;
        while i < history.len()
            invariant
                i <= history.len(),
                result@.len() == i,
                forall|k: int| 0 <= k < i ==> #[trigger] result@[k] == (history@[k].timestamp, history@[k].fee_bps, history@[k].adjustment_reason),
            decreases history.len() - i,
        {
            let e = history[i];
            result.push((e.timestamp, e.fee_bps, e.adjustment_reason));
            i = i + 1;
        }
        result
    }

    /// Drop the entries older than the retention period.
    pub fn cleanup_old_history(storage: &mut FeeHistoryStorage, retention_days: u32, current_time: u64)
        ensures
            final(storage).history is Some,
            final(storage).log() == retained(old(storage).log(), (if current_time >= retention_days as int * 86400 {
                current_time - retention_days as int * 86400
            } else {
                0
            }) as u64),
            final(storage).user_fees == old(storage).user_fees,
    {
        let retention_seconds: u64 = (retention_days as u64) * 86400;
        let cutoff: u64 = current_time.saturating_sub(retention_seconds);
        let history = Self::read_log(storage);
        let ghost src: Seq<FeeHistoryEntry> = history@;
        let mut kept: Vec<FeeHistoryEntry> = Vec::new();
        let mut i: usize = 0;
        while i < history.len()
            invariant
                i <= history.len(),
                history@ == src,
                kept@ == retained(src.take(i as int), cutoff),
            decreases history.len() - i,
        {
            let e = history[i];
            proof {
                assert(src.take(i as int + 1).drop_last() == src.take(i as int));
                reveal_with_fuel(Seq::filter, 1);
            }
            if e.timestamp >= cutoff {
                kept.push(e);
            }
            i = i + 1;
        }
        proof {
            assert(src.take(src.len() as int) == src);
        }
        storage.history = Some(kept);
    }

    /// Floor square root (Newton's iteration).
    pub fn integer_sqrt(n: u64) -> (r: u64)
        requires
            n < u64::MAX,
        ensures
            is_floor_sqrt(n as int, r as int),
    {
        integer_sqrt_u64(n)
    }

    /// Fee of the most recent entry.
    pub fn get_last_fee(storage: &FeeHistoryStorage) -> (r: Option<u32>)
        ensures
            r == (if storage.log().len() == 0 { None } else { Some(storage.log().last().fee_bps) }),
    {
        let history = Self::read_log(storage);
        if history.len() == 0 {
            None
        } else {
            Some(history[history.len() - 1].fee_bps)
        }
    }

    /// Number of automatic congestion adjustments in the last period.
    pub fn count_automatic_adjustments(storage: &FeeHistoryStorage, period_seconds: u64, current_time: u64) -> (r: u32)
        requires
            storage.log().len() <= u32::MAX,
        ensures
            r == count_reason(stats_window(storage.log(), period_seconds, current_time), AdjustmentReason::AutomaticCongestionAdjustment),
            r == stats_window(storage.log(), period_seconds, current_time).filter(
                |e: FeeHistoryEntry| e.adjustment_reason == AdjustmentReason::AutomaticCongestionAdjustment).len(),
    {
        let start_time: u64 = current_time.saturating_sub(period_seconds);
        let history = Self::get_history_range(storage, start_time, current_time);
        let ghost w: Seq<FeeHistoryEntry> = history@;
        proof {
            lemma_filter_len_le(storage.log(), |e: FeeHistoryEntry| start_time <= e.timestamp && e.timestamp <= current_time);
        }
        let mut count: u32 = 0;
        let mut i: usize = 0;
        while i < history.len()
            invariant
                i <= history.len(),
                history.len() <= u32::MAX,
                history@ == w,
                count == count_reason(w.take(i as int), AdjustmentReason::AutomaticCongestionAdjustment),
                count <= i,
            decreases history.len() - i,
        {
            let e = history[i];
            proof {
                assert(w.take(i as int + 1).drop_last() == w.take(i as int));
                assert(w.take(i as int + 1).last() == e);
            }
            if e.adjustment_reason == AdjustmentReason::AutomaticCongestionAdjustment {
                count = count + 1;
            }
            i = i + 1;
        }
        proof {
            assert(w.take(w.len() as int) == w);
            lemma_reason_count_is_filter(w, AdjustmentReason::AutomaticCongestionAdjustment,
                |e: FeeHistoryEntry| e.adjustment_reason == AdjustmentReason::AutomaticCongestionAdjustment);
        }
        count
    }
}

/// Counting a reason counts exactly the entries with that reason: the count
/// is the length of the entries filtered on it.
pub proof fn lemma_reason_count_is_filter(s: Seq<FeeHistoryEntry>, r: AdjustmentReason, keep: spec_fn(FeeHistoryEntry) -> bool)
    requires
        forall|e: FeeHistoryEntry| #[trigger] keep(e) == (e.adjustment_reason == r),
    ensures
        count_reason(s, r) == s.filter(keep).len(),
    decreases s.len(),
{
    reveal_with_fuel(Seq::filter, 1);
    if s.len() > 0 {
        lemma_reason_count_is_filter(s.drop_last(), r, keep);
        assert(keep(s.last()) == (s.last().adjustment_reason == r));
    }
}

/// The lowest and highest fees of a non-empty run are fees of the run that
/// bound every other, and the total lies between the run's length times
/// each of them.
pub proof fn lemma_fee_extremes(s: Seq<FeeHistoryEntry>)
    requires
        s.len() > 0,
    ensures
        forall|i: int| 0 <= i < s.len() ==> min_fee(s) <= #[trigger] s[i].fee_bps <= max_fee(s),
        exists|i: int| 0 <= i < s.len() && #[trigger] s[i].fee_bps == min_fee(s),
        exists|i: int| 0 <= i < s.len() && #[trigger] s[i].fee_bps == max_fee(s),
        min_fee(s) * s.len() <= sum_fees(s) <= max_fee(s) * s.len(),
    decreases s.len(),
{
    let t = s.drop_last();
    let e = s.last();
    if t.len() == 0 {
        assert(s[0] == e);
    } else {
        lemma_fee_extremes(t);
        assert forall|i: int| 0 <= i < s.len() implies min_fee(s) <= #[trigger] s[i].fee_bps <= max_fee(s) by {
            if i < t.len() {
                assert(s[i] == t[i]);
            }
        }
        let a: int = choose|i: int| 0 <= i < t.len() && #[trigger] t[i].fee_bps == min_fee(t);
        let b: int = choose|i: int| 0 <= i < t.len() && #[trigger] t[i].fee_bps == max_fee(t);
        assert(s[a] == t[a] && s[b] == t[b] && s[t.len() as int] == e);
        let n: int = t.len() as int;
        assert(min_fee(s) * (n + 1) <= sum_fees(t) + e.fee_bps) by (nonlinear_arith)
            requires min_fee(t) * n <= sum_fees(t), min_fee(s) <= min_fee(t), min_fee(s) <= e.fee_bps, n >= 0;
        assert(sum_fees(t) + e.fee_bps <= max_fee(s) * (n + 1)) by (nonlinear_arith)
            requires sum_fees(t) <= max_fee(t) * n, max_fee(t) <= max_fee(s), e.fee_bps <= max_fee(s), n >= 0;
    }
}

/// Fees that all equal the mean deviate by nothing.
pub proof fn lemma_equal_fees_no_deviation(s: Seq<FeeHistoryEntry>, avg: int)
    requires
        forall|i: int| 0 <= i < s.len() ==> #[trigger] s[i].fee_bps == avg,
    ensures
        sum_sq_dev(s, avg) == 0,
    decreases s.len(),
{
    if s.len() > 0 {
        assert forall|i: int| 0 <= i < s.drop_last().len() implies #[trigger] s.drop_last()[i].fee_bps == avg by {
            assert(s.drop_last()[i] == s[i]);
        }
        lemma_equal_fees_no_deviation(s.drop_last(), avg);
        assert(s.last() == s[s.len() - 1]);
    }
}

/// A filter never makes a sequence longer.
pub proof fn lemma_filter_len_le<A>(s: Seq<A>, p: spec_fn(A) -> bool)
    ensures
        s.filter(p).len() <= s.len(),
    decreases s.len(),
{
    reveal_with_fuel(Seq::filter, 1);
    if s.len() > 0 {
        lemma_filter_len_le(s.drop_last(), p);
    }
}

/// The average fee lies between 0 and the largest 32-bit value.
proof fn lemma_avg_bound(w: Seq<FeeHistoryEntry>)
    requires
        w.len() > 0,
    ensures
        0 <= sum_fees(w) / w.len() as int <= u32::MAX,
{
    lemma_sum_fees_bound(w);
    assert(sum_fees(w) / w.len() as int <= u32::MAX) by (nonlinear_arith)
        requires sum_fees(w) <= w.len() * u32::MAX, w.len() > 0, sum_fees(w) >= 0;
    assert(sum_fees(w) / w.len() as int >= 0) by (nonlinear_arith)
        requires w.len() > 0, sum_fees(w) >= 0;
}

proof fn lemma_sum_fees_bound(w: Seq<FeeHistoryEntry>)
    ensures
        0 <= sum_fees(w) <= w.len() * u32::MAX,
    decreases w.len(),
{
    if w.len() > 0 {
        lemma_sum_fees_bound(w.drop_last());
    }
}

/// Squared deviations of a prefix never exceed those of the whole sequence.
proof fn lemma_sum_sq_dev_prefix_le(w: Seq<FeeHistoryEntry>, avg: int, k: int)
    requires
        0 <= k <= w.len(),
    ensures
        0 <= sum_sq_dev(w.take(k), avg) <= sum_sq_dev(w, avg),
    decreases w.len(),
{
    if w.len() == 0 {
        assert(w.take(k) == w);
    } else if k == w.len() {
        assert(w.take(k) == w);
        lemma_sum_sq_dev_nonneg(w, avg);
    } else {
        assert(w.take(k) == w.drop_last().take(k));
        lemma_sum_sq_dev_prefix_le(w.drop_last(), avg, k);
        let d = abs_diff(w.last().fee_bps as int, avg);
        assert(d * d >= 0) by (nonlinear_arith);
    }
}

proof fn lemma_sum_sq_dev_nonneg(w: Seq<FeeHistoryEntry>, avg: int)
    ensures
        0 <= sum_sq_dev(w, avg),
    decreases w.len(),
{
    if w.len() > 0 {
        lemma_sum_sq_dev_nonneg(w.drop_last(), avg);
        let d = abs_diff(w.last().fee_bps as int, avg);
        assert(d * d >= 0) by (nonlinear_arith);
    }
}

/// Removing one user's pairs does not change what is found for another user.
proof fn lemma_lookup_filter(s: Seq<UserFeeRecord>, user: AccountId, other: AccountId)
    requires
        other != user,
    ensures
        user_fee_lookup(s.filter(|p: UserFeeRecord| p.user != user), other) == user_fee_lookup(s, other),
    decreases s.len(),
{
    reveal_with_fuel(Seq::filter, 1);
    if s.len() > 0 {
        lemma_lookup_filter(s.drop_last(), user, other);
        let f = s.drop_last().filter(|p: UserFeeRecord| p.user != user);
        if s.last().user != user {
            assert(f.push(s.last()).drop_last() == f);
        }
    }
}

/// Recording a snapshot and reading it back gives the snapshot.
pub proof fn lemma_user_fee_read_after_write(s: Seq<UserFeeRecord>, user: AccountId, snap: FeeSnapshot)
    ensures
        user_fee_lookup(s.push(UserFeeRecord { user, snapshot: snap }), user) == Some(snap),
{
}

/// Appending keeps the log within the maximum and ends with the new entry.
pub proof fn lemma_appended_log_bounded(log: Seq<FeeHistoryEntry>, e: FeeHistoryEntry)
    requires
        log.len() <= max_history(),
    ensures
        appended_log(log, e).len() <= max_history(),
        appended_log(log, e).last() == e,
        appended_log(log, e).len() == log.len() + 1 || appended_log(log, e).len() == max_history(),
{
}

/// Every entry kept by the cleanup is at or after the cutoff, and every entry
/// at or after the cutoff is kept.
pub proof fn lemma_cleanup_keeps_recent(log: Seq<FeeHistoryEntry>, cutoff: u64)
    ensures
        forall|k: int| 0 <= k < retained(log, cutoff).len() ==> #[trigger] retained(log, cutoff)[k].timestamp >= cutoff,
        forall|k: int| 0 <= k < log.len() && log[k].timestamp >= cutoff ==> retained(log, cutoff).contains(#[trigger] log[k]),
{
    broadcast use vstd::seq_lib::group_filter_ensures;
    assert forall|k: int| 0 <= k < retained(log, cutoff).len() implies #[trigger] retained(log, cutoff)[k].timestamp >= cutoff by {
        assert((|e: FeeHistoryEntry| e.timestamp >= cutoff)(retained(log, cutoff)[k]));
    }
    assert forall|k: int| 0 <= k < log.len() && log[k].timestamp >= cutoff implies retained(log, cutoff).contains(#[trigger] log[k]) by {
        assert((|e: FeeHistoryEntry| e.timestamp >= cutoff)(log[k]));
    }
}

} // verus!
