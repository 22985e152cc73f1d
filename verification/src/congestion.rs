//! Network congestion scoring: turns a snapshot of network metrics into a
//! congestion level, and two snapshots into a trend.
use vstd::prelude::*;

verus! {

/// Network congestion level, from the least to the most severe.
#[derive(Clone, Copy, Debug, PartialEq, Eq, Structural)]
pub enum CongestionLevel {
    /// Very low congestion (score 0-20)
    VeryLow,
    /// Low congestion (score 21-40)
    Low,
    /// Moderate congestion (score 41-60)
    Moderate,
    /// High congestion (score 61-80)
    High,
    /// Critical congestion (score above 80)
    Critical,
}

/// Direction in which congestion moves between two snapshots.
#[derive(Clone, Copy, Debug, PartialEq, Eq, Structural)]
pub enum CongestionTrend {
    Increasing,
    Stable,
    Decreasing,
}

/// Network metrics snapshot at a point in time.
#[derive(Clone, Copy, Debug, PartialEq, Eq, Structural)]
pub struct NetworkMetrics {
    /// Transaction volume (transactions per second)
    pub txn_volume_tps: u64,
    /// Average gas price in stroops
    pub avg_gas_price: u64,
    /// Estimated pending transactions in the network queue
    pub pending_txn_count: u64,
    /// Current ledger close time (seconds)
    pub ledger_close_time: u64,
    /// Estimated capacity utilization (0-100, may exceed 100)
    pub capacity_utilization_percent: u32,
    /// Timestamp when the metrics were sampled
    pub timestamp: u64,
    /// Average confirmation time (milliseconds)
    pub avg_confirmation_time_ms: u32,
}

/// Historical congestion data point.
#[derive(Clone, Copy, Debug, PartialEq, Eq, Structural)]
pub struct CongestionDataPoint {
    pub level: CongestionLevel,
    pub capacity_utilization: u32,
    pub timestamp: u64,
}

/// Thresholds used by the congestion monitor.
pub struct NetworkCongestionConstants;

impl NetworkCongestionConstants {
    /// Maximum transactions per second the network can handle
    pub const MAX_TXN_CAPACITY_TPS: u64 = 1000;
    /// Minimum gas price (stroops)
    pub const MIN_GAS_PRICE: u64 = 100;
    /// Gas price at which the gas factor saturates
    pub const CRITICAL_GAS_PRICE: u64 = 5000;
    /// High gas price threshold (stroops)
    pub const HIGH_GAS_PRICE: u64 = 3000;
    /// High pending-queue threshold
    pub const HIGH_PENDING_TXN_THRESHOLD: u64 = 5000;
    /// Pending-queue size at which the pending factor saturates
    pub const CRITICAL_PENDING_TXN_THRESHOLD: u64 = 10000;
    pub const VERY_LOW_CAPACITY_THRESHOLD: u32 = 20;
    pub const LOW_CAPACITY_THRESHOLD: u32 = 40;
    pub const MODERATE_CAPACITY_THRESHOLD: u32 = 60;
    pub const HIGH_CAPACITY_THRESHOLD: u32 = 80;
}

/// Gas price factor on a 0-100 scale: linear between the minimum and the
/// critical gas price.
pub open spec fn gas_factor(avg_gas_price: u64) -> int {
    if avg_gas_price <= 100 {
        0
    } else if avg_gas_price >= 5000 {
        100
    } else {
        (avg_gas_price - 100) * 100 / 4900
    }
}

/// Volume factor on a 0-100 scale: share of the maximum throughput.
pub open spec fn volume_factor(txn_volume_tps: u64) -> int {
    if txn_volume_tps >= 1000 {
        100
    } else {
        txn_volume_tps * 100 / 1000
    }
}

/// Pending factor on a 0-100 scale: share of the critical queue size.
pub open spec fn pending_factor(pending_txn_count: u64) -> int {
    if pending_txn_count >= 10000 {
        100
    } else {
        pending_txn_count * 100 / 10000
    }
}

/// Capacity factor: utilization clamped to 100.
pub open spec fn capacity_factor(capacity_utilization_percent: u32) -> int {
    if capacity_utilization_percent >= 100 {
        100
    } else {
        capacity_utilization_percent as int
    }
}

/// Weighted congestion score: gas 30%, volume 25%, pending 25%, capacity 20%.
pub open spec fn congestion_score(m: NetworkMetrics) -> int {
    (gas_factor(m.avg_gas_price) * 30 + volume_factor(m.txn_volume_tps) * 25
        + pending_factor(m.pending_txn_count) * 25 + capacity_factor(
        m.capacity_utilization_percent,
    ) * 20) / 100
}

/// Level for a score: 0-20, 21-40, 41-60, 61-80, above 80.
pub open spec fn level_for_score(score: int) -> CongestionLevel {
    if score <= 20 {
        CongestionLevel::VeryLow
    } else if score <= 40 {
        CongestionLevel::Low
    } else if score <= 60 {
        CongestionLevel::Moderate
    } else if score <= 80 {
        CongestionLevel::High
    } else {
        CongestionLevel::Critical
    }
}

/// Congestion level of a metrics snapshot: the level of the weighted score,
/// but never below the level that capacity utilization alone indicates
/// (up to 20% very low, 40% low, 60% moderate, 80% high, above that
/// critical).
pub open spec fn congestion_level_of(m: NetworkMetrics) -> CongestionLevel {
    let c = capacity_factor(m.capacity_utilization_percent);
    let s = congestion_score(m);
    level_for_score(if c > s { c } else { s })
}

/// Severity rank of a level: 0 for VeryLow up to 4 for Critical.
pub open spec fn level_rank(level: CongestionLevel) -> int {
    match level {
        CongestionLevel::VeryLow => 0,
        CongestionLevel::Low => 1,
        CongestionLevel::Moderate => 2,
        CongestionLevel::High => 3,
        CongestionLevel::Critical => 4,
    }
}

/// Trend from a previous level to a current level.
pub open spec fn trend_between(current: CongestionLevel, previous: CongestionLevel) -> CongestionTrend {
    if level_rank(current) > level_rank(previous) {
        CongestionTrend::Increasing
    } else if level_rank(current) == level_rank(previous) {
        CongestionTrend::Stable
    } else {
        CongestionTrend::Decreasing
    }
}

/// Trend between two metrics snapshots.
pub open spec fn congestion_trend(current: NetworkMetrics, previous: NetworkMetrics) -> CongestionTrend {
    trend_between(congestion_level_of(current), congestion_level_of(previous))
}

/// Score attached to each level for fine-grained adjustments.
pub open spec fn level_score(level: CongestionLevel) -> u32 {
    match level {
        CongestionLevel::VeryLow => 10,
        CongestionLevel::Low => 30,
        CongestionLevel::Moderate => 50,
        CongestionLevel::High => 70,
        CongestionLevel::Critical => 90,
    }
}

/// Network congestion monitor.
pub struct NetworkCongestionMonitor;

impl NetworkCongestionMonitor {
    /// Analyze a metrics snapshot and return its congestion level.
    pub fn get_current_congestion_level(metrics: &NetworkMetrics) -> (level: CongestionLevel)
        ensures
            level == congestion_level_of(*metrics),
    {
        let gas: u32 = Self::calculate_gas_factor(metrics.avg_gas_price);
        let volume: u32 = Self::calculate_volume_factor(metrics.txn_volume_tps);
        let pending: u32 = Self::calculate_pending_factor(metrics.pending_txn_count);
        let capacity: u32 = if metrics.capacity_utilization_percent >= 100 {
            100
        } else {
            metrics.capacity_utilization_percent
        };
        let score: u32 = gas * 30 + volume * 25 + pending * 25 + capacity * 20;
        let weight_sum: u32 = 100;
        let weighted: u32 = score / weight_sum;
        let effective: u32 = if capacity > weighted { capacity } else { weighted };
        Self::score_to_congestion_level(effective)
    }

    /// Gas price factor (0-100 scale).
    pub fn calculate_gas_factor(avg_gas_price: u64) -> (factor: u32)
        ensures
            factor == gas_factor(avg_gas_price),
            factor <= 100,
    {
        if avg_gas_price <= NetworkCongestionConstants::MIN_GAS_PRICE {
            0
        } else if avg_gas_price >= NetworkCongestionConstants::CRITICAL_GAS_PRICE {
            100
        } else {
            let range: u64 = NetworkCongestionConstants::CRITICAL_GAS_PRICE
                - NetworkCongestionConstants::MIN_GAS_PRICE;
            let diff: u64 = avg_gas_price - NetworkCongestionConstants::MIN_GAS_PRICE;
            let f: u64 = diff * 100 / range;
            f as u32
        }
    }

    /// Transaction volume factor (0-100 scale).
    pub fn calculate_volume_factor(txn_volume_tps: u64) -> (factor: u32)
        ensures
            factor == volume_factor(txn_volume_tps),
            factor <= 100,
    {
        if txn_volume_tps == 0 {
            0
        } else if txn_volume_tps >= NetworkCongestionConstants::MAX_TXN_CAPACITY_TPS {
            100
        } else {
            let f: u64 = txn_volume_tps * 100 / NetworkCongestionConstants::MAX_TXN_CAPACITY_TPS;
            f as u32
        }
    }

    /// Pending transactions factor (0-100 scale).
    pub fn calculate_pending_factor(pending_txn_count: u64) -> (factor: u32)
        ensures
            factor == pending_factor(pending_txn_count),
            factor <= 100,
    {
        if pending_txn_count == 0 {
            0
        } else if pending_txn_count >= NetworkCongestionConstants::CRITICAL_PENDING_TXN_THRESHOLD {
            100
        } else {
            let f: u64 = pending_txn_count * 100
                / NetworkCongestionConstants::CRITICAL_PENDING_TXN_THRESHOLD;
            f as u32
        }
    }

    /// Convert a score to a congestion level.
    pub fn score_to_congestion_level(score: u32) -> (level: CongestionLevel)
        ensures
            level == level_for_score(score as int),
    {
        if score <= 20 {
            CongestionLevel::VeryLow
        } else if score <= 40 {
            CongestionLevel::Low
        } else if score <= 60 {
            CongestionLevel::Moderate
        } else if score <= 80 {
            CongestionLevel::High
        } else {
            CongestionLevel::Critical
        }
    }

    /// Severity rank of a level (0 = VeryLow, 4 = Critical).
    pub fn level_rank_of(level: &CongestionLevel) -> (rank: u8)
        ensures
            rank as int == level_rank(*level),
    {
        match level {
            CongestionLevel::VeryLow => 0,
            CongestionLevel::Low => 1,
            CongestionLevel::Moderate => 2,
            CongestionLevel::High => 3,
            CongestionLevel::Critical => 4,
        }
    }

    /// Trend between the current and the previous metrics: increasing when the
    /// current level is more severe, decreasing when it is less severe.
    pub fn calculate_trend(current_metrics: &NetworkMetrics, previous_metrics: &NetworkMetrics) -> (trend: CongestionTrend)
        ensures
            trend == congestion_trend(*current_metrics, *previous_metrics),
    {
        let current_level = Self::get_current_congestion_level(current_metrics);
        let previous_level = Self::get_current_congestion_level(previous_metrics);
        let c: u8 = Self::level_rank_of(&current_level);
        let p: u8 = Self::level_rank_of(&previous_level);
        if c > p {
            CongestionTrend::Increasing
        } else if c == p {
            CongestionTrend::Stable
        } else {
            CongestionTrend::Decreasing
        }
    }

    /// Numerical score for a congestion level.
    pub fn get_level_score(level: CongestionLevel) -> (score: u32)
        ensures
            score == level_score(level),
    {
        match level {
            CongestionLevel::VeryLow => 10,
            CongestionLevel::Low => 30,
            CongestionLevel::Moderate => 50,
            CongestionLevel::High => 70,
            CongestionLevel::Critical => 90,
        }
    }

    /// The network is recovering when the trend is decreasing and has lasted
    /// at least 30 seconds.
    pub fn is_recovering(trend: CongestionTrend, current_time: u64, trend_start_time: u64) -> (r: bool)
        requires
            trend == CongestionTrend::Decreasing ==> trend_start_time <= current_time,
        ensures
            r == (trend == CongestionTrend::Decreasing && current_time - trend_start_time >= 30),
    {
        if trend != CongestionTrend::Decreasing {
            return false;
        }
        (current_time - trend_start_time) >= 30
    }
}

/// The level of a snapshot only depends on its score, and a higher score never
/// gives a less severe level.
pub proof fn lemma_level_monotonic(a: int, b: int)
    requires
        a <= b,
    ensures
        level_rank(level_for_score(a)) <= level_rank(level_for_score(b)),
{
}

/// Swapping the two snapshots turns an increasing trend into a decreasing one
/// and keeps a stable trend stable.
pub proof fn lemma_trend_antisymmetric(a: NetworkMetrics, b: NetworkMetrics)
    ensures
        congestion_trend(a, b) == CongestionTrend::Increasing <==> congestion_trend(b, a)
            == CongestionTrend::Decreasing,
        congestion_trend(a, b) == CongestionTrend::Stable <==> congestion_trend(b, a)
            == CongestionTrend::Stable,
{
}

/// A snapshot compared with itself is always stable.
pub proof fn lemma_trend_reflexive_stable(a: NetworkMetrics)
    ensures
        congestion_trend(a, a) == CongestionTrend::Stable,
{
}

/// Every factor lies between 0 and 100, so the weighted score does too.
pub proof fn lemma_score_bounds(m: NetworkMetrics)
    ensures
        0 <= congestion_score(m) <= 100,
{
    assert(0 <= gas_factor(m.avg_gas_price) <= 100);
    assert(0 <= volume_factor(m.txn_volume_tps) <= 100);
    assert(0 <= pending_factor(m.pending_txn_count) <= 100);
}

} // verus!
