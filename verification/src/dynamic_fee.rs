//! Dynamic trading-fee calculation from network congestion.
use vstd::prelude::*;
use crate::congestion::{
    CongestionLevel, CongestionTrend, NetworkMetrics, NetworkCongestionMonitor, congestion_level_of,
    congestion_trend,
};

verus! {

/// Dynamic fee adjustment configuration. Multipliers are fixed point with
/// 100 meaning 1.0.
#[derive(Clone, Copy, Debug, PartialEq, Eq, Structural)]
pub struct FeeAdjustmentConfig {
    /// Base fee in basis points
    pub base_fee_bps: u32,
    pub very_low_multiplier: u32,
    pub low_multiplier: u32,
    pub moderate_multiplier: u32,
    pub high_multiplier: u32,
    pub critical_multiplier: u32,
    /// Fee ceiling in basis points
    pub max_fee_bps: u32,
    /// Fee floor in basis points
    pub min_fee_bps: u32,
    /// Enable predictive surge pricing based on the trend
    pub enable_trend_adjustment: bool,
    /// Trend adjustment (percent, capped at 50 when applied)
    pub trend_adjustment_percent: u32,
    /// Minimum time between consecutive fee updates (seconds)
    pub update_cooldown_seconds: u64,
    /// Enable the emergency fee cap
    pub enable_emergency_override: bool,
    /// Emergency fee cap (basis points)
    pub emergency_fee_cap_bps: u32,
}

/// The default configuration.
pub open spec fn default_fee_config() -> FeeAdjustmentConfig {
    FeeAdjustmentConfig {
        base_fee_bps: 50,
        very_low_multiplier: 80,
        low_multiplier: 90,
        moderate_multiplier: 100,
        high_multiplier: 150,
        critical_multiplier: 250,
        max_fee_bps: 500,
        min_fee_bps: 10,
        enable_trend_adjustment: true,
        trend_adjustment_percent: 20,
        update_cooldown_seconds: 60,
        enable_emergency_override: true,
        emergency_fee_cap_bps: 300,
    }
}

impl Default for FeeAdjustmentConfig {
    fn default() -> (c: Self)
        ensures
            c == default_fee_config(),
    {
        FeeAdjustmentConfig {
            base_fee_bps: 50,
            very_low_multiplier: 80,
            low_multiplier: 90,
            moderate_multiplier: 100,
            high_multiplier: 150,
            critical_multiplier: 250,
            max_fee_bps: 500,
            min_fee_bps: 10,
            enable_trend_adjustment: true,
            trend_adjustment_percent: 20,
            update_cooldown_seconds: 60,
            enable_emergency_override: true,
            emergency_fee_cap_bps: 300,
        }
    }
}

/// Result of a fee calculation.
#[derive(Clone, Copy, Debug, PartialEq, Eq, Structural)]
pub struct FeeAdjustmentResult {
    /// Final fee in basis points
    pub adjusted_fee_bps: u32,
    /// Base fee before adjustment
    pub base_fee_bps: u32,
    /// Multiplier applied for congestion (trend boost included)
    pub congestion_multiplier: u32,
    /// Additional adjustment from the trend (basis points, signed)
    pub trend_adjustment_bps: i32,
    pub congestion_level: CongestionLevel,
    pub trend: CongestionTrend,
    pub emergency_override_active: bool,
    pub calculated_at: u64,
}

/// Volatility statistics for predictive pricing.
#[derive(Clone, Copy, Debug, PartialEq, Eq, Structural)]
pub struct CongestionVolatility {
    pub avg_score: u32,
    pub max_score: u32,
    pub min_score: u32,
    pub volatility_score: u32,
}

/// Fee impact of an adjustment on one transaction.
#[derive(Clone, Copy, Debug, PartialEq, Eq, Structural)]
pub struct FeeImpact {
    /// Fee amount at the original rate
    pub original_fee: u64,
    /// Fee amount at the adjusted rate
    pub adjusted_fee: u64,
    /// Increase of the fee amount (0 when the fee goes down)
    pub fee_difference: u64,
    /// Signed percentage change of the fee amount
    pub fee_difference_percent: i32,
}

/// Multiplier configured for a level.
pub open spec fn multiplier_for_level(level: CongestionLevel, config: FeeAdjustmentConfig) -> u32 {
    match level {
        CongestionLevel::VeryLow => config.very_low_multiplier,
        CongestionLevel::Low => config.low_multiplier,
        CongestionLevel::Moderate => config.moderate_multiplier,
        CongestionLevel::High => config.high_multiplier,
        CongestionLevel::Critical => config.critical_multiplier,
    }
}

/// `fee * multiplier / 100`, truncated to 32 bits as the integer cast does.
pub open spec fn multiplied_fee(fee: u32, multiplier: u32) -> u32 {
    (fee as int * multiplier as int / 100) as u32
}

/// Trend adjustment: `base * percent / 100`, halved for decreases.
pub open spec fn trend_adjustment(base_fee: u32, percent: u32, is_increase: bool) -> int {
    if is_increase {
        base_fee * percent / 100
    } else {
        (base_fee * percent / 100) / 2
    }
}

pub open spec fn sat_add_u32(a: int, b: int) -> int {
    if a + b > u32::MAX { u32::MAX as int } else { a + b }
}

pub open spec fn sat_sub_u32(a: int, b: int) -> int {
    if a - b < 0 { 0 } else { a - b }
}

pub open spec fn min_int(a: int, b: int) -> int {
    if a <= b { a } else { b }
}

pub open spec fn max_int(a: int, b: int) -> int {
    if a >= b { a } else { b }
}

/// Trend seen by the calculation: stable without previous metrics.
pub open spec fn fee_trend(metrics: NetworkMetrics, previous: Option<NetworkMetrics>) -> CongestionTrend {
    match previous {
        None => CongestionTrend::Stable,
        Some(p) => congestion_trend(metrics, p),
    }
}

/// Whether the trend adjustment applies in a given direction.
pub open spec fn trend_applies(config: FeeAdjustmentConfig, metrics: NetworkMetrics, previous: Option<NetworkMetrics>, t: CongestionTrend) -> bool {
    previous is Some && config.enable_trend_adjustment && fee_trend(metrics, previous) == t
}

/// Multiplier after the trend boost (+5 rising, -3 falling, saturating).
pub open spec fn effective_multiplier(config: FeeAdjustmentConfig, metrics: NetworkMetrics, previous: Option<NetworkMetrics>) -> u32 {
    let m = multiplier_for_level(congestion_level_of(metrics), config) as int;
    if trend_applies(config, metrics, previous, CongestionTrend::Increasing) {
        sat_add_u32(m, 5) as u32
    } else if trend_applies(config, metrics, previous, CongestionTrend::Decreasing) {
        sat_sub_u32(m, 3) as u32
    } else {
        m as u32
    }
}

/// Signed trend adjustment in basis points.
pub open spec fn effective_trend_adjustment(config: FeeAdjustmentConfig, metrics: NetworkMetrics, previous: Option<NetworkMetrics>) -> int {
    let pct = if config.trend_adjustment_percent <= 50 { config.trend_adjustment_percent } else { 50 };
    if trend_applies(config, metrics, previous, CongestionTrend::Increasing) {
        trend_adjustment(config.base_fee_bps, pct, true)
    } else if trend_applies(config, metrics, previous, CongestionTrend::Decreasing) {
        -trend_adjustment(config.base_fee_bps, pct, false)
    } else {
        0
    }
}

/// Final fee: base times multiplier, plus the trend adjustment (saturating),
/// capped by the emergency cap when active and enabled, then raised to the
/// floor and lowered to the ceiling.
pub open spec fn adjusted_fee(config: FeeAdjustmentConfig, metrics: NetworkMetrics, previous: Option<NetworkMetrics>, emergency_override_active: bool) -> int {
    let f1 = multiplied_fee(config.base_fee_bps, effective_multiplier(config, metrics, previous)) as int;
    let adj = effective_trend_adjustment(config, metrics, previous);
    let f2 = if adj > 0 { sat_add_u32(f1, adj) } else if adj < 0 { sat_sub_u32(f1, -adj) } else { f1 };
    let f3 = if emergency_override_active && config.enable_emergency_override {
        min_int(f2, config.emergency_fee_cap_bps as int)
    } else {
        f2
    };
    min_int(max_int(f3, config.min_fee_bps as int), config.max_fee_bps as int)
}

/// The complete result of a fee calculation.
pub open spec fn fee_adjustment_result(config: FeeAdjustmentConfig, metrics: NetworkMetrics, previous: Option<NetworkMetrics>, current_time: u64, emergency_override_active: bool) -> FeeAdjustmentResult {
    FeeAdjustmentResult {
        adjusted_fee_bps: adjusted_fee(config, metrics, previous, emergency_override_active) as u32,
        base_fee_bps: config.base_fee_bps,
        congestion_multiplier: effective_multiplier(config, metrics, previous),
        trend_adjustment_bps: effective_trend_adjustment(config, metrics, previous) as i32,
        congestion_level: congestion_level_of(metrics),
        trend: fee_trend(metrics, previous),
        emergency_override_active,
        calculated_at: current_time,
    }
}

/// `amount * bps / 10000`.
pub open spec fn fee_amount(amount: u64, bps: u32) -> int {
    amount as int * bps as int / 10000
}

/// Increase of the fee amount when moving between two rates (0 on a decrease).
pub open spec fn fee_increase(amount: u64, original_bps: u32, adjusted_bps: u32) -> int {
    let o = fee_amount(amount, original_bps);
    let a = fee_amount(amount, adjusted_bps);
    if a > o { a - o } else { 0 }
}

/// Signed percentage change of the fee amount, rounded toward zero; 0 when
/// the original amount is 0.
pub open spec fn fee_change_percent(amount: u64, original_bps: u32, adjusted_bps: u32) -> int {
    let o = fee_amount(amount, original_bps);
    let a = fee_amount(amount, adjusted_bps);
    if o <= 0 {
        0
    } else if a >= o {
        (a - o) * 100 / o
    } else {
        -((o - a) * 100 / o)
    }
}

/// Dynamic fee adjustment calculator.
pub struct DynamicFeeAdjustment;

impl DynamicFeeAdjustment {
    /// Fixed-point precision for multipliers (100 = 1.0)
    pub const MULTIPLIER_PRECISION: u32 = 100;

    /// Calculate the adjusted fee for the current network metrics.
    pub fn calculate_adjusted_fee(
        config: &FeeAdjustmentConfig,
        metrics: &NetworkMetrics,
        previous_metrics: Option<&NetworkMetrics>,
        current_time: u64,
        emergency_override_active: bool,
    ) -> (r: FeeAdjustmentResult)
        ensures
            r == fee_adjustment_result(*config, *metrics, match previous_metrics {
                Some(p) => Some(*p),
                None => None,
            }, current_time, emergency_override_active),
    {
        let ghost prev: Option<NetworkMetrics> = match previous_metrics {
            Some(p) => Some(*p),
            None => None,
        };
        let congestion_level = NetworkCongestionMonitor::get_current_congestion_level(metrics);
        let mut congestion_multiplier: u32 = Self::get_multiplier_for_level(&congestion_level, config);
        let mut trend_adjustment_bps: i32 = 0;
        let pct: u32 = if config.trend_adjustment_percent <= 50 {
            config.trend_adjustment_percent
        } else {
            50
        };
        let trend = match previous_metrics {
            Some(prev_metrics) => {
                let t = NetworkCongestionMonitor::calculate_trend(metrics, prev_metrics);
                if config.enable_trend_adjustment {
                    match t {
                        CongestionTrend::Increasing => {
                            let a: u32 = Self::calculate_trend_adjustment(config.base_fee_bps, pct, true);
                            trend_adjustment_bps = a as i32;
                            congestion_multiplier = congestion_multiplier.saturating_add(5);
                        },
                        CongestionTrend::Decreasing => {
                            let a: u32 = Self::calculate_trend_adjustment(config.base_fee_bps, pct, false);
                            trend_adjustment_bps = -(a as i32);
                            congestion_multiplier = congestion_multiplier.saturating_sub(3);
                        },
                        CongestionTrend::Stable => {
                            trend_adjustment_bps = 0;
                        },
                    }
                }
                t
            },
            None => CongestionTrend::Stable,
        };
        assert(congestion_multiplier == effective_multiplier(*config, *metrics, prev));
        assert(trend_adjustment_bps as int == effective_trend_adjustment(*config, *metrics, prev));

        let mut adjusted: u32 = Self::apply_multiplier(config.base_fee_bps, congestion_multiplier);
        if trend_adjustment_bps > 0 {
            adjusted = adjusted.saturating_add(trend_adjustment_bps as u32);
        } else if trend_adjustment_bps < 0 {
            adjusted = adjusted.saturating_sub((-trend_adjustment_bps) as u32);
        }
        if emergency_override_active && config.enable_emergency_override {
            if adjusted > config.emergency_fee_cap_bps {
                adjusted = config.emergency_fee_cap_bps;
            }
        }
        if adjusted < config.min_fee_bps {
            adjusted = config.min_fee_bps;
        }
        if adjusted > config.max_fee_bps {
            adjusted = config.max_fee_bps;
        }
        FeeAdjustmentResult {
            adjusted_fee_bps: adjusted,
            base_fee_bps: config.base_fee_bps,
            congestion_multiplier,
            trend_adjustment_bps,
            congestion_level,
            trend,
            emergency_override_active,
            calculated_at: current_time,
        }
    }

    /// Multiplier configured for a congestion level.
    pub fn get_multiplier_for_level(level: &CongestionLevel, config: &FeeAdjustmentConfig) -> (m: u32)
        ensures
            m == multiplier_for_level(*level, *config),
    {
        match level {
            CongestionLevel::VeryLow => config.very_low_multiplier,
            CongestionLevel::Low => config.low_multiplier,
            CongestionLevel::Moderate => config.moderate_multiplier,
            CongestionLevel::High => config.high_multiplier,
            CongestionLevel::Critical => config.critical_multiplier,
        }
    }

    /// Apply a fixed-point multiplier (100 = 1.0) to a fee.
    pub fn apply_multiplier(fee: u32, multiplier: u32) -> (r: u32)
        ensures
            r == multiplied_fee(fee, multiplier),
            fee as int * multiplier as int / 100 <= u32::MAX ==> r == fee as int * multiplier as int / 100,
    {
        proof {
            assert(fee as int * multiplier as int <= u32::MAX as int * u32::MAX as int) by (nonlinear_arith);
        }
        let product: u64 = fee as u64 * multiplier as u64;
        (product / 100) as u32
    }

    /// Trend adjustment in basis points; decreases are half as aggressive.
    pub fn calculate_trend_adjustment(base_fee: u32, percent: u32, is_increase: bool) -> (r: u32)
        requires
            percent <= 100,
        ensures
            r == trend_adjustment(base_fee, percent, is_increase),
            percent <= 50 ==> r <= i32::MAX,
    {
        proof {
            assert(base_fee as int * percent as int <= base_fee as int * 100) by (nonlinear_arith)
                requires percent <= 100;
            assert(percent <= 50 ==> base_fee as int * percent as int / 100 <= i32::MAX) by (nonlinear_arith)
                requires base_fee <= u32::MAX;
        }
        let product: u64 = base_fee as u64 * percent as u64;
        let adjustment: u32 = (product / 100) as u32;
        if is_increase {
            adjustment
        } else {
            adjustment / 2
        }
    }

    /// A fee update is allowed once the cooldown has elapsed.
    pub fn can_update_fee(last_update_time: u64, current_time: u64, cooldown_seconds: u64) -> (r: bool)
        requires
            last_update_time <= current_time,
        ensures
            r == (current_time - last_update_time >= cooldown_seconds),
    {
        (current_time - last_update_time) >= cooldown_seconds
    }

    /// Emergency override triggers at critical congestion with gas above 3000
    /// or capacity at 95% or more.
    pub fn should_trigger_emergency_override(current_level: CongestionLevel, current_metrics: &NetworkMetrics) -> (r: bool)
        ensures
            r == (current_level == CongestionLevel::Critical && (current_metrics.avg_gas_price > 3000
                || current_metrics.capacity_utilization_percent >= 95)),
    {
        match current_level {
            CongestionLevel::Critical => {
                current_metrics.avg_gas_price > 3000 || current_metrics.capacity_utilization_percent >= 95
            },
            _ => false,
        }
    }

    /// Fee impact of moving from one fee rate to another on a transaction.
    /// Amounts are truncated to 64 bits and the percentage to 32 bits, as the
    /// integer casts do; the percentage rounds toward zero.
    pub fn calculate_fee_impact(original_fee_bps: u32, adjusted_fee_bps: u32, transaction_amount: u64) -> (r: FeeImpact)
        ensures
            r.original_fee == fee_amount(transaction_amount, original_fee_bps) as u64,
            r.adjusted_fee == fee_amount(transaction_amount, adjusted_fee_bps) as u64,
            r.fee_difference == fee_increase(transaction_amount, original_fee_bps, adjusted_fee_bps) as u64,
            r.fee_difference_percent == fee_change_percent(transaction_amount, original_fee_bps, adjusted_fee_bps) as i32,
    {
        let ghost o: int = fee_amount(transaction_amount, original_fee_bps);
        let ghost a: int = fee_amount(transaction_amount, adjusted_fee_bps);
        proof {
            lemma_fee_amount_bounds(transaction_amount, original_fee_bps);
            lemma_fee_amount_bounds(transaction_amount, adjusted_fee_bps);
        }
        let original: u128 = (transaction_amount as u128 * original_fee_bps as u128) / 10000;
        let adjusted: u128 = (transaction_amount as u128 * adjusted_fee_bps as u128) / 10000;
        let fee_difference: u128 = if adjusted > original {
            adjusted - original
        } else {
            0
        };
        let percent: i128 = if original > 0 {
            if adjusted >= original {
                let up: u128 = (adjusted - original) * 100 / original;
                proof {
                    assert((a - o) * 100 / o <= a * 100) by (nonlinear_arith)
                        requires 0 < o, o <= a;
                }
                up as i128
            } else {
                let down: u128 = (original - adjusted) * 100 / original;
                proof {
                    assert((o - a) * 100 / o <= 100) by (nonlinear_arith)
                        requires 0 < o, 0 <= a, a < o;
                }
                -(down as i128)
            }
        } else {
            0
        };
        FeeImpact {
            original_fee: original as u64,
            adjusted_fee: adjusted as u64,
            fee_difference: fee_difference as u64,
            fee_difference_percent: percent as i32,
        }
    }

    /// Fee at the average of the multipliers of two levels.
    pub fn estimate_optimal_fee(config: &FeeAdjustmentConfig, current_level: CongestionLevel, target_level: CongestionLevel) -> (r: u32)
        requires
            multiplier_for_level(current_level, *config) + multiplier_for_level(target_level, *config) <= u32::MAX,
        ensures
            r == multiplied_fee(config.base_fee_bps, ((multiplier_for_level(current_level, *config)
                + multiplier_for_level(target_level, *config)) / 2) as u32),
    {
        let current_multiplier = Self::get_multiplier_for_level(&current_level, config);
        let target_multiplier = Self::get_multiplier_for_level(&target_level, config);
        let avg: u32 = (current_multiplier + target_multiplier) / 2;
        Self::apply_multiplier(config.base_fee_bps, avg)
    }
}

/// A fee amount never exceeds the transaction amount times the rate, and fits
/// in 64 bits times 2^32 / 10000.
pub proof fn lemma_fee_amount_bounds(amount: u64, bps: u32)
    ensures
        0 <= fee_amount(amount, bps),
        fee_amount(amount, bps) <= amount as int * bps as int,
        amount as int * bps as int <= u64::MAX as int * u32::MAX as int,
        fee_amount(amount, bps) <= u64::MAX as int * 429497,
{
    assert(0 <= amount as int * bps as int) by (nonlinear_arith);
    assert(amount as int * bps as int <= u64::MAX as int * u32::MAX as int) by (nonlinear_arith);
}

/// The final fee never exceeds the configured ceiling, and never goes below
/// the floor when the floor does not exceed the ceiling.
pub proof fn lemma_fee_within_bounds(config: FeeAdjustmentConfig, metrics: NetworkMetrics, previous: Option<NetworkMetrics>, emergency: bool)
    ensures
        adjusted_fee(config, metrics, previous, emergency) <= config.max_fee_bps,
        config.min_fee_bps <= config.max_fee_bps ==> config.min_fee_bps <= adjusted_fee(config, metrics, previous, emergency),
{
}

/// With the emergency override active and enabled, the fee never exceeds the
/// emergency cap, unless the floor itself is above the cap.
pub proof fn lemma_emergency_cap(config: FeeAdjustmentConfig, metrics: NetworkMetrics, previous: Option<NetworkMetrics>)
    requires
        config.enable_emergency_override,
        config.min_fee_bps <= config.emergency_fee_cap_bps,
    ensures
        adjusted_fee(config, metrics, previous, true) <= config.emergency_fee_cap_bps,
{
}

/// Without previous metrics there is no trend adjustment: the fee is the base
/// fee times the level multiplier, clamped.
pub proof fn lemma_no_previous_no_trend(config: FeeAdjustmentConfig, metrics: NetworkMetrics)
    ensures
        effective_trend_adjustment(config, metrics, None) == 0,
        effective_multiplier(config, metrics, None) == multiplier_for_level(congestion_level_of(metrics), config),
        fee_trend(metrics, None) == CongestionTrend::Stable,
{
}

} // verus!
