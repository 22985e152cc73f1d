use swaptrade::congestion::{CongestionLevel, CongestionTrend, NetworkMetrics};
use swaptrade::dynamic_fee::{DynamicFeeAdjustment, FeeAdjustmentConfig, FeeAdjustmentResult};
use swaptrade::emergency::{EmergencyOverrideManager, OverrideError};
use swaptrade::fee_history::{AdjustmentReason, FeeHistoryManager, FeeHistoryStorage, TriggeredBy};
use swaptrade::fee_manager::{FeeAdjustmentManager, FeeEvent, FeeManagerError, FeeManagerStorage};
use swaptrade::rate_limit::{RateLimitStorage, RateLimiter, UserTier};

const ADMIN: u64 = 1;

fn at_score(p: u64) -> NetworkMetrics {
    NetworkMetrics {
        txn_volume_tps: 10 * p,
        avg_gas_price: 100 + 49 * p,
        pending_txn_count: 100 * p,
        ledger_close_time: 1000,
        capacity_utilization_percent: p as u32,
        timestamp: 1000,
        avg_confirmation_time_ms: 2000,
    }
}

fn manager() -> FeeManagerStorage {
    let mut s = FeeManagerStorage::new();
    FeeAdjustmentManager::initialize(&mut s, FeeAdjustmentConfig::default(), at_score(50), 0);
    s
}

fn update(s: &mut FeeManagerStorage, p: u64, t: u64) -> FeeAdjustmentResult {
    FeeAdjustmentManager::update_fees_for_congestion(s, at_score(p), t).unwrap()
}

fn history_len(s: &FeeManagerStorage) -> usize {
    FeeHistoryManager::get_recent_history(&s.history, 100_000).len()
}

#[test]
fn test_scenario_normal_operation_low_congestion() {
    let mut s = manager();
    let mut m = at_score(20);
    m.capacity_utilization_percent = 20;
    m.avg_gas_price = 200;
    let events_before = s.events.len();
    let r = FeeAdjustmentManager::update_fees_for_congestion(&mut s, m, 100).unwrap();
    assert_eq!(r.congestion_level, CongestionLevel::VeryLow);
    assert_eq!(r.adjusted_fee_bps, 40);
    assert_eq!(FeeAdjustmentManager::get_current_fee(&s), Some(40));
    assert_eq!(history_len(&s), 2);
    assert_eq!(s.events.len(), events_before + 1);
}

#[test]
fn test_scenario_gradual_congestion_increase() {
    let mut s = manager();
    let a = update(&mut s, 10, 100).adjusted_fee_bps;
    let b = update(&mut s, 30, 200).adjusted_fee_bps;
    let c = update(&mut s, 75, 300);
    assert_eq!(a, 40);
    assert!(b > a);
    assert_eq!(c.trend, CongestionTrend::Increasing);
    assert!(c.adjusted_fee_bps > b);
    let fees: Vec<u32> = FeeHistoryManager::get_recent_history(&s.history, 10).iter().map(|e| e.fee_bps).collect();
    assert_eq!(fees, vec![50, a, b, c.adjusted_fee_bps]);
}

#[test]
fn test_scenario_sudden_critical_congestion() {
    let mut s = manager();
    let mut m = at_score(100);
    m.pending_txn_count = 20_000;
    let r = FeeAdjustmentManager::update_fees_for_congestion(&mut s, m, 100).unwrap();
    assert!(EmergencyOverrideManager::is_active(&s.overrides));
    assert!(r.emergency_override_active);
    assert!(r.adjusted_fee_bps <= FeeAdjustmentConfig::default().emergency_fee_cap_bps);
    assert!(s.events.iter().any(|e| matches!(e, FeeEvent::EmergencyFeeOverrideActivated { automatic: true, .. })));
}

#[test]
fn test_scenario_recovery_from_congestion() {
    let mut s = manager();
    let mut critical = at_score(100);
    critical.pending_txn_count = 20_000;
    FeeAdjustmentManager::update_fees_for_congestion(&mut s, critical, 100).unwrap();
    let high = update(&mut s, 70, 200);
    assert_eq!(high.trend, CongestionTrend::Decreasing);
    let moderate = update(&mut s, 50, 300);
    assert!(moderate.adjusted_fee_bps < high.adjusted_fee_bps);
    assert!(EmergencyOverrideManager::is_active(&s.overrides));
    let low = update(&mut s, 30, 100 + 1800);
    assert!(!EmergencyOverrideManager::is_active(&s.overrides));
    assert!(low.adjusted_fee_bps <= 50);
}

#[test]
fn test_scenario_manual_fee_adjustment_by_admin() {
    let mut s = manager();
    assert_eq!(FeeAdjustmentManager::get_current_fee(&s), Some(50));
    FeeAdjustmentManager::update_fees_manual(&mut s, ADMIN, 75, 100).unwrap();
    assert_eq!(FeeAdjustmentManager::get_current_fee(&s), Some(75));
    let last = *FeeHistoryManager::get_recent_history(&s.history, 1).last().unwrap();
    assert_eq!(last.adjustment_reason, AdjustmentReason::ManualAdminAdjustment);
    assert_eq!(last.triggered_by, TriggeredBy::Admin(ADMIN));
    assert!(matches!(s.events.last(), Some(FeeEvent::FeeAdjustmentApplied { new_fee_bps: 75, automatic: false, .. })));
}

#[test]
fn test_scenario_manual_emergency_override() {
    let mut s = manager();
    FeeAdjustmentManager::add_emergency_admin(&mut s, ADMIN);
    let mut cfg = FeeAdjustmentConfig::default();
    cfg.base_fee_bps = 100;
    cfg.emergency_fee_cap_bps = 120;
    FeeAdjustmentManager::update_config(&mut s, ADMIN, cfg, 50).unwrap();
    FeeAdjustmentManager::activate_emergency_override(&mut s, ADMIN, 120, 60).unwrap();
    assert!(EmergencyOverrideManager::is_active(&s.overrides));
    let capped = update(&mut s, 70, 100);
    assert_eq!(capped.adjusted_fee_bps, 120);
    FeeAdjustmentManager::deactivate_emergency_override(&mut s, ADMIN, 150).unwrap();
    let normal = update(&mut s, 70, 200);
    assert_eq!(normal.adjusted_fee_bps, 150);
}

#[test]
fn test_scenario_fee_history_analysis() {
    let mut s = manager();
    let mut t = 100;
    for i in 0..24u64 {
        update(&mut s, if i % 3 == 0 { 70 } else if i % 3 == 1 { 30 } else { 50 }, t);
        t += 3600;
    }
    let window = FeeHistoryManager::get_history_range(&s.history, t - 86400, t);
    let stats = FeeHistoryManager::calculate_statistics(&s.history, 86400, t);
    assert_eq!(stats.adjustment_count as usize, window.len());
    assert!(stats.min_fee_bps <= stats.avg_fee_bps && stats.avg_fee_bps <= stats.max_fee_bps);
    let (page, pages) = FeeHistoryManager::get_fee_changes_paginated(&s.history, 1, 10);
    assert_eq!(pages as usize, (history_len(&s) + 9) / 10);
    assert_eq!(page.len(), 10);
}

#[test]
fn test_scenario_config_update_with_active_overrides() {
    let mut s = manager();
    FeeAdjustmentManager::add_emergency_admin(&mut s, ADMIN);
    FeeAdjustmentManager::activate_emergency_override(&mut s, ADMIN, 300, 10).unwrap();
    let mut cfg = FeeAdjustmentConfig::default();
    cfg.max_fee_bps = 100;
    cfg.emergency_fee_cap_bps = 100;
    FeeAdjustmentManager::update_config(&mut s, ADMIN, cfg, 20).unwrap();
    let r = update(&mut s, 100, 100);
    assert!(r.adjusted_fee_bps <= 100);
    assert!(r.adjusted_fee_bps <= 300);
}

#[test]
fn test_scenario_high_volume_fee_updates() {
    let mut s = manager();
    assert!(FeeAdjustmentManager::update_fees_for_congestion(&mut s, at_score(30), 1000).is_ok());
    for i in 1..10u64 {
        assert_eq!(FeeAdjustmentManager::update_fees_for_congestion(&mut s, at_score(30), 1000 + i), Err(FeeManagerError::UpdateCooldownNotElapsed));
    }
    assert!(FeeAdjustmentManager::update_fees_for_congestion(&mut s, at_score(30), 1060).is_ok());
}

#[test]
fn test_scenario_network_metrics_unavailable() {
    let mut s = FeeManagerStorage::new();
    assert_eq!(FeeAdjustmentManager::update_fees_for_congestion(&mut s, at_score(30), 100), Err(FeeManagerError::ConfigurationNotInitialized));
    FeeAdjustmentManager::initialize(&mut s, FeeAdjustmentConfig::default(), at_score(50), 0);
    let first = update(&mut s, 30, 100);
    assert_eq!(first.trend, CongestionTrend::Stable);
    let second = update(&mut s, 70, 200);
    assert_eq!(second.trend, CongestionTrend::Increasing);
}

#[test]
fn test_scenario_oscillating_congestion() {
    let mut s = manager();
    let mut t = 100;
    for i in 0..4 {
        let r = update(&mut s, if i % 2 == 0 { 70 } else { 30 }, t);
        assert!(r.adjusted_fee_bps >= 10 && r.adjusted_fee_bps <= 500);
        assert!(FeeAdjustmentManager::update_fees_for_congestion(&mut s, at_score(50), t + 1).is_err());
        t += 60;
    }
    assert_eq!(history_len(&s), 5);
}

#[test]
fn test_scenario_concurrent_users_same_fee() {
    let mut s = manager();
    let quoted = FeeAdjustmentManager::get_current_fee(&s).unwrap();
    let trades: Vec<u64> = vec![1_000_000, 2_000_000, 3_000_000];
    FeeAdjustmentManager::update_fees_manual(&mut s, ADMIN, 75, 100).unwrap();
    let now = FeeAdjustmentManager::get_current_fee(&s).unwrap();
    for amount in trades {
        let impact = DynamicFeeAdjustment::calculate_fee_impact(quoted, now, amount);
        assert_eq!(impact.original_fee, amount * 50 / 10000);
        assert_eq!(impact.adjusted_fee, amount * 75 / 10000);
    }
}

#[test]
fn test_scenario_extreme_metrics_input() {
    let mut s = manager();
    let m = NetworkMetrics {
        txn_volume_tps: u64::MAX,
        avg_gas_price: u64::MAX,
        pending_txn_count: u64::MAX,
        ledger_close_time: 1000,
        capacity_utilization_percent: 100,
        timestamp: 1000,
        avg_confirmation_time_ms: u32::MAX,
    };
    let r = FeeAdjustmentManager::update_fees_for_congestion(&mut s, m, 100).unwrap();
    assert_eq!(r.congestion_level, CongestionLevel::Critical);
    assert!(r.adjusted_fee_bps <= 500);
}

#[test]
fn test_scenario_multi_admin_emergency_management() {
    let mut s = manager();
    for a in [1u64, 2, 3] {
        FeeAdjustmentManager::add_emergency_admin(&mut s, a);
    }
    FeeAdjustmentManager::activate_emergency_override(&mut s, 1, 200, 10).unwrap();
    assert_eq!(FeeAdjustmentManager::activate_emergency_override(&mut s, 2, 200, 11), Err(FeeManagerError::Override(OverrideError::AlreadyActive)));
    FeeAdjustmentManager::deactivate_emergency_override(&mut s, 2, 12).unwrap();
    FeeAdjustmentManager::activate_emergency_override(&mut s, 3, 200, 13).unwrap();
    assert_eq!(FeeAdjustmentManager::deactivate_emergency_override(&mut s, 4, 14), Err(FeeManagerError::Override(OverrideError::UnauthorizedAdmin)));
    assert!(EmergencyOverrideManager::is_active(&s.overrides));
}

#[test]
fn test_scenario_fee_impact_on_user_transaction() {
    let impact = DynamicFeeAdjustment::calculate_fee_impact(50, 150, 10_000_000);
    assert_eq!(impact.original_fee, 50_000);
    assert_eq!(impact.adjusted_fee, 150_000);
    assert_eq!(impact.fee_difference, 100_000);
    assert_eq!(impact.fee_difference_percent, 200);
}

#[test]
fn test_scenario_recovery_trend_detection() {
    let mut s = manager();
    update(&mut s, 70, 100);
    let r = update(&mut s, 50, 200);
    assert_eq!(r.trend, CongestionTrend::Decreasing);
    assert_eq!(r.congestion_multiplier, 97);
    let r2 = update(&mut s, 30, 300);
    assert_eq!(r2.trend, CongestionTrend::Decreasing);
    assert!(r2.adjusted_fee_bps < r.adjusted_fee_bps);
}

#[test]
fn test_scenario_configuration_boundary_validation() {
    let mut s = manager();
    let base = FeeAdjustmentConfig::default();
    let mut c1 = base;
    c1.min_fee_bps = 60;
    assert_eq!(FeeAdjustmentManager::update_config(&mut s, ADMIN, c1, 1), Err(FeeManagerError::MinFeeExceedsBaseFee));
    let mut c2 = base;
    c2.base_fee_bps = 600;
    assert_eq!(FeeAdjustmentManager::update_config(&mut s, ADMIN, c2, 1), Err(FeeManagerError::BaseFeeExceedsMaxFee));
    let mut c3 = base;
    c3.max_fee_bps = 1001;
    assert_eq!(FeeAdjustmentManager::update_config(&mut s, ADMIN, c3, 1), Err(FeeManagerError::MaxFeeExceedsTenPercent));
    let mut c4 = base;
    c4.max_fee_bps = 800;
    assert!(FeeAdjustmentManager::update_config(&mut s, ADMIN, c4, 1).is_ok());
    assert_eq!(FeeAdjustmentManager::get_config(&s).unwrap().max_fee_bps, 800);
}

#[test]
fn test_scenario_fee_history_export() {
    let mut h = FeeHistoryStorage::new();
    for i in 0..50u64 {
        let r = FeeAdjustmentResult {
            adjusted_fee_bps: 40 + i as u32,
            base_fee_bps: 50,
            congestion_multiplier: 100,
            trend_adjustment_bps: 0,
            congestion_level: CongestionLevel::Moderate,
            trend: CongestionTrend::Stable,
            emergency_override_active: false,
            calculated_at: 1000 + i,
        };
        FeeHistoryManager::record_fee_adjustment(&mut h, &r, 50, &at_score(50), TriggeredBy::Auto, AdjustmentReason::AutomaticCongestionAdjustment);
    }
    let summary = FeeHistoryManager::get_history_summary(&h, 50);
    assert_eq!(summary.len(), 50);
    assert_eq!(summary[0], (1000, 40, AdjustmentReason::AutomaticCongestionAdjustment));
    let csv: Vec<String> = summary.iter().map(|(t, f, r)| format!("{},{},{}", t, f, r.short_tag())).collect();
    assert_eq!(csv[49], "1049,89,auto");
}

#[test]
fn test_scenario_emergency_recovery_window() {
    let mut s = manager();
    FeeAdjustmentManager::add_emergency_admin(&mut s, ADMIN);
    FeeAdjustmentManager::activate_emergency_override(&mut s, ADMIN, 200, 1000).unwrap();
    assert_eq!(EmergencyOverrideManager::get_time_until_auto_deactivation(&s.overrides, 1000), Some(1800));
    assert_eq!(EmergencyOverrideManager::get_time_until_auto_deactivation(&s.overrides, 1600), Some(1200));
    assert_eq!(EmergencyOverrideManager::get_time_until_auto_deactivation(&s.overrides, 2800), None);
}

#[test]
fn test_scenario_user_tier_integration() {
    let mut s = manager();
    FeeAdjustmentManager::update_fees_manual(&mut s, ADMIN, 75, 100).unwrap();
    let adjusted = FeeAdjustmentManager::get_current_fee(&s).unwrap();
    let discount: u32 = 30;
    assert_eq!(adjusted.saturating_sub(discount), 45);
}

#[test]
fn test_scenario_rate_limit_interaction() {
    let mut fees = manager();
    let mut limits = RateLimitStorage::new();
    let expert = UserTier::Expert;
    for i in 0..100u64 {
        RateLimiter::record_swap(&mut limits, 5, 3600 + i);
    }
    FeeAdjustmentManager::update_fees_manual(&mut fees, ADMIN, 200, 3700).unwrap();
    assert!(RateLimiter::check_swap_limit(&mut limits, 5, &expert, 3700).is_err());
    FeeAdjustmentManager::update_fees_manual(&mut fees, ADMIN, 30, 3701).unwrap();
    assert!(RateLimiter::check_swap_limit(&mut limits, 5, &expert, 3701).is_err());
}

#[test]
fn test_scenario_event_listener_synchronization() {
    let mut s = manager();
    update(&mut s, 70, 100);
    match s.events.last() {
        Some(FeeEvent::FeeAdjustmentApplied { previous_fee_bps, new_fee_bps, congestion, timestamp, automatic }) => {
            assert_eq!(*previous_fee_bps, 50);
            assert_eq!(*new_fee_bps, 75);
            assert_eq!(*congestion, Some(CongestionLevel::High));
            assert_eq!(*timestamp, 100);
            assert!(*automatic);
        },
        other => panic!("unexpected event {:?}", other),
    }
}

#[test]
fn test_scenario_performance_under_load() {
    let mut s = manager();
    let mut cfg = FeeAdjustmentConfig::default();
    cfg.update_cooldown_seconds = 10;
    FeeAdjustmentManager::update_config(&mut s, ADMIN, cfg, 0).unwrap();
    let mut t = 10;
    for i in 0..100u64 {
        let mut m = at_score(50 + (i % 5));
        m.txn_volume_tps = 1000;
        assert!(FeeAdjustmentManager::update_fees_for_congestion(&mut s, m, t).is_ok());
        t += 10;
    }
    assert!(FeeAdjustmentManager::get_current_fee(&s).is_some());
}

#[test]
fn test_scenario_upgrade_path_compatibility() {
    let mut s = manager();
    update(&mut s, 70, 100);
    let snapshot = s.clone();
    let history_before = FeeHistoryManager::get_recent_history(&snapshot.history, 100);
    let mut upgraded = snapshot;
    assert_eq!(FeeHistoryManager::get_recent_history(&upgraded.history, 100), history_before);
    assert_eq!(FeeAdjustmentManager::get_config(&upgraded).unwrap(), FeeAdjustmentConfig::default());
    update(&mut upgraded, 30, 200);
    assert_eq!(FeeHistoryManager::get_recent_history(&upgraded.history, 100).len(), history_before.len() + 1);
}
