use swaptrade::congestion::{CongestionLevel, CongestionTrend, NetworkCongestionMonitor, NetworkMetrics};
use swaptrade::dynamic_fee::{DynamicFeeAdjustment, FeeAdjustmentConfig};
use swaptrade::emergency::{EmergencyOverrideManager, OverrideReason, OverrideStatus};
use swaptrade::fee_history::{AdjustmentReason, FeeHistoryEntry, FeeHistoryManager, TriggeredBy};
use swaptrade::fee_manager::FeeAdjustmentInfo;
use swaptrade::nft_types::saturating_add_i128;
use swaptrade::rate_limit::{CachedWindowBoundary, RateLimitConfig, TimeWindow, UserTier};
use swaptrade::zkp::{AuditEventType, Constraint, ConstraintSystem, ConstraintType, ProofScheme};

fn create_test_config() -> FeeAdjustmentConfig {
    FeeAdjustmentConfig::default()
}

fn create_test_metrics(capacity_utilization: u32, gas_price: u64) -> NetworkMetrics {
    NetworkMetrics {
        txn_volume_tps: 100,
        avg_gas_price: gas_price,
        pending_txn_count: 100,
        ledger_close_time: 1000,
        capacity_utilization_percent: capacity_utilization,
        timestamp: 1000,
        avg_confirmation_time_ms: 2000,
    }
}

// ---- dynamic fee adjustment ----

#[test]
fn test_apply_multiplier() {
    assert_eq!(DynamicFeeAdjustment::apply_multiplier(100, 100), 100);
    assert_eq!(DynamicFeeAdjustment::apply_multiplier(100, 200), 200);
    assert_eq!(DynamicFeeAdjustment::apply_multiplier(100, 50), 50);
}

#[test]
fn test_can_update_fee_with_cooldown() {
    assert!(DynamicFeeAdjustment::can_update_fee(1000, 1100, 60));
    assert!(!DynamicFeeAdjustment::can_update_fee(1000, 1030, 60));
    assert!(DynamicFeeAdjustment::can_update_fee(1000, 1060, 60));
}

#[test]
fn test_calculate_adjusted_fee_very_low_congestion() {
    let config = create_test_config();
    let metrics = create_test_metrics(10, 100);
    let result = DynamicFeeAdjustment::calculate_adjusted_fee(&config, &metrics, None, 1000, false);
    assert_eq!(result.adjusted_fee_bps, 40);
    assert_eq!(result.congestion_level, CongestionLevel::VeryLow);
}

#[test]
fn test_calculate_adjusted_fee_critical_congestion() {
    let config = create_test_config();
    let metrics = create_test_metrics(100, 5000);
    let result = DynamicFeeAdjustment::calculate_adjusted_fee(&config, &metrics, None, 1000, false);
    assert_eq!(result.adjusted_fee_bps, 125);
    assert_eq!(result.congestion_level, CongestionLevel::Critical);
}

#[test]
fn test_calculate_adjusted_fee_respects_max_cap() {
    let mut config = create_test_config();
    config.max_fee_bps = 100;
    let metrics = create_test_metrics(100, 5000);
    let result = DynamicFeeAdjustment::calculate_adjusted_fee(&config, &metrics, None, 1000, false);
    assert!(result.adjusted_fee_bps <= config.max_fee_bps);
}

#[test]
fn test_calculate_adjusted_fee_respects_min_floor() {
    let config = create_test_config();
    let metrics = create_test_metrics(5, 100);
    let result = DynamicFeeAdjustment::calculate_adjusted_fee(&config, &metrics, None, 1000, false);
    assert!(result.adjusted_fee_bps >= config.min_fee_bps);
}

#[test]
fn dynamic_fee_adjustment_test_emergency_override_caps_fees() {
    let config = create_test_config();
    let metrics = create_test_metrics(100, 5000);
    let _result_no_override = DynamicFeeAdjustment::calculate_adjusted_fee(&config, &metrics, None, 1000, false);
    let result_with_override = DynamicFeeAdjustment::calculate_adjusted_fee(&config, &metrics, None, 1000, true);
    assert!(result_with_override.adjusted_fee_bps <= config.emergency_fee_cap_bps);
    assert!(result_with_override.emergency_override_active);
}

#[test]
fn test_calculate_fee_impact() {
    let impact = DynamicFeeAdjustment::calculate_fee_impact(50, 125, 1_000_000);
    assert_eq!(impact.original_fee, 5000);
    assert_eq!(impact.adjusted_fee, 12500);
    assert_eq!(impact.fee_difference, 7500);
    assert_eq!(impact.fee_difference_percent, 150);
}

#[test]
fn test_should_trigger_emergency_override() {
    let metrics_critical_high_gas = NetworkMetrics {
        txn_volume_tps: 1000,
        avg_gas_price: 4000,
        pending_txn_count: 10000,
        ledger_close_time: 1000,
        capacity_utilization_percent: 90,
        timestamp: 1000,
        avg_confirmation_time_ms: 10000,
    };
    assert!(DynamicFeeAdjustment::should_trigger_emergency_override(CongestionLevel::Critical, &metrics_critical_high_gas));
}

#[test]
fn test_should_not_trigger_emergency_override_at_high_only() {
    let metrics_high = NetworkMetrics {
        txn_volume_tps: 600,
        avg_gas_price: 2000,
        pending_txn_count: 5000,
        ledger_close_time: 1000,
        capacity_utilization_percent: 70,
        timestamp: 1000,
        avg_confirmation_time_ms: 5000,
    };
    assert!(!DynamicFeeAdjustment::should_trigger_emergency_override(CongestionLevel::High, &metrics_high));
}

// ---- network congestion ----

#[test]
fn test_gas_price_factor_calculation() {
    assert_eq!(NetworkCongestionMonitor::calculate_gas_factor(100), 0);
    assert_eq!(NetworkCongestionMonitor::calculate_gas_factor(5000), 100);
    let mid = NetworkCongestionMonitor::calculate_gas_factor(2550);
    assert!(mid > 40 && mid < 60);
}

#[test]
fn test_volume_factor_calculation() {
    assert_eq!(NetworkCongestionMonitor::calculate_volume_factor(0), 0);
    assert_eq!(NetworkCongestionMonitor::calculate_volume_factor(1000), 100);
    assert_eq!(NetworkCongestionMonitor::calculate_volume_factor(500), 50);
}

#[test]
fn test_pending_factor_calculation() {
    assert_eq!(NetworkCongestionMonitor::calculate_pending_factor(0), 0);
    assert_eq!(NetworkCongestionMonitor::calculate_pending_factor(10000), 100);
    assert_eq!(NetworkCongestionMonitor::calculate_pending_factor(5000), 50);
}

#[test]
fn test_score_to_congestion_level() {
    assert_eq!(NetworkCongestionMonitor::score_to_congestion_level(10), CongestionLevel::VeryLow);
    assert_eq!(NetworkCongestionMonitor::score_to_congestion_level(30), CongestionLevel::Low);
    assert_eq!(NetworkCongestionMonitor::score_to_congestion_level(50), CongestionLevel::Moderate);
    assert_eq!(NetworkCongestionMonitor::score_to_congestion_level(70), CongestionLevel::High);
    assert_eq!(NetworkCongestionMonitor::score_to_congestion_level(90), CongestionLevel::Critical);
}

#[test]
fn test_get_current_congestion_level_very_low() {
    let metrics = NetworkMetrics {
        txn_volume_tps: 100,
        avg_gas_price: 100,
        pending_txn_count: 100,
        ledger_close_time: 1000,
        capacity_utilization_percent: 10,
        timestamp: 1000,
        avg_confirmation_time_ms: 2000,
    };
    assert_eq!(NetworkCongestionMonitor::get_current_congestion_level(&metrics), CongestionLevel::VeryLow);
}

#[test]
fn test_get_current_congestion_level_critical() {
    let metrics = NetworkMetrics {
        txn_volume_tps: 1000,
        avg_gas_price: 5000,
        pending_txn_count: 10000,
        ledger_close_time: 1000,
        capacity_utilization_percent: 100,
        timestamp: 1000,
        avg_confirmation_time_ms: 10000,
    };
    assert_eq!(NetworkCongestionMonitor::get_current_congestion_level(&metrics), CongestionLevel::Critical);
}

#[test]
fn test_calculate_trend_increasing() {
    let prev_metrics = NetworkMetrics {
        txn_volume_tps: 100,
        avg_gas_price: 100,
        pending_txn_count: 100,
        ledger_close_time: 1000,
        capacity_utilization_percent: 10,
        timestamp: 1000,
        avg_confirmation_time_ms: 2000,
    };
    let curr_metrics = NetworkMetrics {
        txn_volume_tps: 800,
        avg_gas_price: 3500,
        pending_txn_count: 8000,
        ledger_close_time: 1100,
        capacity_utilization_percent: 80,
        timestamp: 1100,
        avg_confirmation_time_ms: 8000,
    };
    let trend = NetworkCongestionMonitor::calculate_trend(&curr_metrics, &prev_metrics);
    assert_eq!(trend, CongestionTrend::Increasing);
}

// ---- emergency override ----

#[test]
fn test_override_status_equality() {
    assert_eq!(OverrideStatus::Active, OverrideStatus::Active);
    assert_ne!(OverrideStatus::Active, OverrideStatus::Inactive);
}

#[test]
fn test_override_reason_equality() {
    assert_eq!(OverrideReason::CriticalCongestion, OverrideReason::CriticalCongestion);
    assert_ne!(OverrideReason::CriticalCongestion, OverrideReason::ExtremeGasPrices);
}

#[test]
fn test_should_auto_trigger_no_trigger() {
    let metrics = NetworkMetrics {
        txn_volume_tps: 100,
        avg_gas_price: 500,
        pending_txn_count: 1000,
        ledger_close_time: 1000,
        capacity_utilization_percent: 50,
        timestamp: 1000,
        avg_confirmation_time_ms: 2000,
    };
    let (should_trigger, _reason) = EmergencyOverrideManager::should_auto_trigger(&metrics);
    assert!(!should_trigger);
}

#[test]
fn test_should_auto_trigger_multiple_indicators() {
    let metrics = NetworkMetrics {
        txn_volume_tps: 1000,
        avg_gas_price: 6000,
        pending_txn_count: 20000,
        ledger_close_time: 1000,
        capacity_utilization_percent: 98,
        timestamp: 1000,
        avg_confirmation_time_ms: 10000,
    };
    let (should_trigger, reason) = EmergencyOverrideManager::should_auto_trigger(&metrics);
    assert!(should_trigger);
    assert_eq!(reason, Some(OverrideReason::MultipleTriggers));
}

#[test]
fn test_should_auto_trigger_extreme_capacity() {
    let metrics = NetworkMetrics {
        txn_volume_tps: 800,
        avg_gas_price: 2000,
        pending_txn_count: 8000,
        ledger_close_time: 1000,
        capacity_utilization_percent: 99,
        timestamp: 1000,
        avg_confirmation_time_ms: 8000,
    };
    let (should_trigger, _reason) = EmergencyOverrideManager::should_auto_trigger(&metrics);
    assert!(should_trigger);
}

// ---- fee history and manager records ----

#[test]
fn test_adjustment_reason_equality() {
    assert_eq!(AdjustmentReason::AutomaticCongestionAdjustment, AdjustmentReason::AutomaticCongestionAdjustment);
    assert_ne!(AdjustmentReason::AutomaticCongestionAdjustment, AdjustmentReason::EmergencyOverride);
}

#[test]
fn test_integer_sqrt() {
    assert_eq!(FeeHistoryManager::integer_sqrt(0), 0);
    assert_eq!(FeeHistoryManager::integer_sqrt(1), 1);
    assert_eq!(FeeHistoryManager::integer_sqrt(4), 2);
    assert_eq!(FeeHistoryManager::integer_sqrt(16), 4);
    assert_eq!(FeeHistoryManager::integer_sqrt(100), 10);
    assert_eq!(FeeHistoryManager::integer_sqrt(144), 12);
}

#[test]
fn test_fee_adjustment_entry_creation() {
    let metrics = create_test_metrics(10, 100);
    let entry = FeeHistoryEntry {
        timestamp: 1000,
        fee_bps: 50,
        previous_fee_bps: 45,
        congestion_level: CongestionLevel::VeryLow,
        network_metrics: metrics,
        adjustment_reason: AdjustmentReason::AutomaticCongestionAdjustment,
        triggered_by: TriggeredBy::Auto,
    };
    assert_eq!(entry.fee_bps, 50);
    assert_eq!(entry.previous_fee_bps, 45);
}

#[test]
fn test_fee_adjustment_info_creation() {
    let info = FeeAdjustmentInfo {
        current_fee_bps: 50,
        previous_fee_bps: 45,
        congestion_level: CongestionLevel::VeryLow,
        config: FeeAdjustmentConfig::default(),
        emergency_override_active: false,
        network_metrics: create_test_metrics(10, 100),
        last_update: 1000,
    };
    assert_eq!(info.current_fee_bps, 50);
    assert_eq!(info.config.base_fee_bps, 50);
}

#[test]
fn fuzz_saturating_arithmetic() {
    let max = i128::MAX;
    let min = i128::MIN;
    assert_eq!(saturating_add_i128(max, 1), max, "Saturating add should cap at max");
    assert_eq!(saturating_add_i128(min, -1), min, "Saturating sub should cap at min");
    assert_eq!(saturating_add_i128(1000, 500), 1500);
    assert_eq!(saturating_add_i128(1000, -500), 500);
}

// ---- rate limit windows ----

#[test]
fn test_rate_limit_config_tiers() {
    let novice = RateLimitConfig::for_tier(&UserTier::Novice);
    assert_eq!(novice.swaps_per_hour, 5);
    assert_eq!(novice.lp_ops_per_day, 10);
    let trader = RateLimitConfig::for_tier(&UserTier::Trader);
    assert_eq!(trader.swaps_per_hour, 20);
    assert_eq!(trader.lp_ops_per_day, 30);
    let expert = RateLimitConfig::for_tier(&UserTier::Expert);
    assert_eq!(expert.swaps_per_hour, 100);
    assert_eq!(expert.lp_ops_per_day, u32::MAX);
    let whale = RateLimitConfig::for_tier(&UserTier::Whale);
    assert_eq!(whale.swaps_per_hour, u32::MAX);
    assert_eq!(whale.lp_ops_per_day, u32::MAX);
}

#[test]
fn test_fast_window_power_of_two() {
    let ts = 1000u64;
    let window = TimeWindow::fast_window(ts, 512u64);
    let expected_start = (ts / 512) * 512;
    assert_eq!(window.window_start, expected_start);
    assert_eq!(window.window_duration, 512u64);
}

#[test]
fn test_fast_window_non_power_of_two() {
    let ts = 1000u64;
    let window = TimeWindow::fast_window(ts, 3600u64);
    let expected_start = (ts / 3600) * 3600;
    assert_eq!(window.window_start, expected_start);
    assert_eq!(window.window_duration, 3600u64);
}

#[test]
fn test_cached_window_boundary_validation() {
    let cache = CachedWindowBoundary::new(3600u64, 3600u64);
    assert!(cache.is_valid(3600u64));
    assert!(cache.is_valid(5000u64));
    assert!(cache.is_valid(7199u64));
    assert!(!cache.is_valid(7200u64));
    assert!(!cache.is_valid(8000u64));
}

#[test]
fn rate_limit_test_cooldown_calculation() {
    let window = TimeWindow::hourly(3600u64);
    assert_eq!(window.cooldown_ms(3600u64), 3600000u64);
    assert_eq!(window.cooldown_ms(5400u64), 1800000u64);
    assert_eq!(window.cooldown_ms(7200u64), 0u64);
}

// ---- zero-knowledge types ----

#[test]
fn test_constraint_system() {
    let mut cs = ConstraintSystem::new();
    cs.add_constraint(Constraint { constraint_type: ConstraintType::Range, is_equality: false });
    assert_eq!(cs.constraint_count(), 1);
}

#[test]
fn test_circuit_types() {
    assert_ne!(ConstraintType::Range, ConstraintType::Multiplication);
    assert_ne!(ConstraintType::LinearEqual, ConstraintType::Commitment);
}

#[test]
fn test_proof_scheme_values() {
    assert_ne!(ProofScheme::Bulletproof, ProofScheme::ZkSnark);
    assert_ne!(ProofScheme::Bulletproof, ProofScheme::SimplifiedProof);
    assert_ne!(ProofScheme::ZkSnark, ProofScheme::SimplifiedProof);
}

#[test]
fn test_audit_event_type_values() {
    assert_ne!(AuditEventType::ProofGenerated, AuditEventType::ProofVerified);
    assert_ne!(AuditEventType::ProofVerified, AuditEventType::TransactionExecuted);
}
