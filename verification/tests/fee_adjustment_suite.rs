use swaptrade::congestion::{CongestionLevel, CongestionTrend, NetworkCongestionMonitor, NetworkMetrics};
use swaptrade::dynamic_fee::{DynamicFeeAdjustment, FeeAdjustmentConfig, FeeAdjustmentResult};
use swaptrade::emergency::{EmergencyOverrideManager, OverrideError, OverrideReason, OverrideStatus, OverrideStorage};
use swaptrade::fee_history::{AdjustmentReason, FeeHistoryManager, FeeHistoryStorage, FeeSnapshot, TriggeredBy};
use swaptrade::fee_manager::{FeeAdjustmentManager, FeeEvent, FeeManagerError, FeeManagerStorage};

const ADMIN: u64 = 1;
const STRANGER: u64 = 2;
const DAY: u64 = 86400;

/// Metrics whose four factors all equal `p` (0-100), so the congestion
/// score is `p`.
fn at_score(p: u64) -> NetworkMetrics {
    NetworkMetrics {
        txn_volume_tps: 10 * p,
        avg_gas_price: 100 + 49 * p,
        pending_txn_count: 100 * p,
        ledger_close_time: 1000,
        capacity_utilization_percent: p as u32,
        timestamp: 1000,
        avg_confirmation_time_ms: 2000,
    }
}

fn metrics(capacity: u32, gas: u64, pending: u64) -> NetworkMetrics {
    NetworkMetrics {
        txn_volume_tps: 100,
        avg_gas_price: gas,
        pending_txn_count: pending,
        ledger_close_time: 1000,
        capacity_utilization_percent: capacity,
        timestamp: 1000,
        avg_confirmation_time_ms: 2000,
    }
}

fn fee(metrics: &NetworkMetrics, previous: Option<&NetworkMetrics>, emergency: bool) -> u32 {
    DynamicFeeAdjustment::calculate_adjusted_fee(&FeeAdjustmentConfig::default(), metrics, previous, 1000, emergency).adjusted_fee_bps
}

fn result_at(t: u64, fee_bps: u32) -> FeeAdjustmentResult {
    FeeAdjustmentResult {
        adjusted_fee_bps: fee_bps,
        base_fee_bps: 50,
        congestion_multiplier: 100,
        trend_adjustment_bps: 0,
        congestion_level: CongestionLevel::Moderate,
        trend: CongestionTrend::Stable,
        emergency_override_active: false,
        calculated_at: t,
    }
}

fn record(h: &mut FeeHistoryStorage, t: u64, fee_bps: u32, reason: AdjustmentReason) {
    FeeHistoryManager::record_fee_adjustment(h, &result_at(t, fee_bps), 50, &at_score(50), TriggeredBy::Auto, reason);
}

fn manager(t: u64) -> FeeManagerStorage {
    let mut s = FeeManagerStorage::new();
    FeeAdjustmentManager::initialize(&mut s, FeeAdjustmentConfig::default(), at_score(50), t);
    s
}

fn admin_overrides() -> OverrideStorage {
    let mut o = OverrideStorage::new();
    EmergencyOverrideManager::initialize(&mut o);
    EmergencyOverrideManager::add_authorized_admin(&mut o, ADMIN);
    o
}

#[test]
fn test_network_congestion_monitoring_very_low() {
    let m = metrics(10, 100, 100);
    assert_eq!(NetworkCongestionMonitor::get_current_congestion_level(&m), CongestionLevel::VeryLow);
    assert_eq!(fee(&m, None, false), 40);
}

#[test]
fn test_network_congestion_monitoring_critical() {
    let m = at_score(100);
    assert_eq!(NetworkCongestionMonitor::get_current_congestion_level(&m), CongestionLevel::Critical);
    assert_eq!(fee(&m, None, false), 125);
}

#[test]
fn test_fee_adjustment_respects_minimum() {
    let mut config = FeeAdjustmentConfig::default();
    config.base_fee_bps = 5;
    config.min_fee_bps = 10;
    let r = DynamicFeeAdjustment::calculate_adjusted_fee(&config, &at_score(0), None, 1000, false);
    assert_eq!(r.adjusted_fee_bps, 10);
}

#[test]
fn test_fee_adjustment_respects_maximum() {
    let mut config = FeeAdjustmentConfig::default();
    config.base_fee_bps = 400;
    config.critical_multiplier = 1000;
    let r = DynamicFeeAdjustment::calculate_adjusted_fee(&config, &at_score(100), None, 1000, false);
    assert_eq!(r.adjusted_fee_bps, 500);
}

#[test]
fn test_fee_increase_on_increasing_congestion_trend() {
    let prev = at_score(30);
    let curr = at_score(70);
    let r = DynamicFeeAdjustment::calculate_adjusted_fee(&FeeAdjustmentConfig::default(), &curr, Some(&prev), 1000, false);
    assert_eq!(r.trend, CongestionTrend::Increasing);
    assert_eq!(r.congestion_multiplier, 155);
    assert_eq!(r.trend_adjustment_bps, 10);
    assert_eq!(r.adjusted_fee_bps, 87);
    assert!(r.adjusted_fee_bps > fee(&curr, None, false));
}

#[test]
fn test_fee_decrease_on_decreasing_congestion_trend() {
    let prev = at_score(70);
    let curr = at_score(30);
    let r = DynamicFeeAdjustment::calculate_adjusted_fee(&FeeAdjustmentConfig::default(), &curr, Some(&prev), 1000, false);
    assert_eq!(r.trend, CongestionTrend::Decreasing);
    assert_eq!(r.congestion_multiplier, 87);
    assert_eq!(r.trend_adjustment_bps, -5);
    assert_eq!(r.adjusted_fee_bps, 38);
}

#[test]
fn test_stable_congestion_no_trend_adjustment() {
    let prev = at_score(50);
    let curr = at_score(55);
    let r = DynamicFeeAdjustment::calculate_adjusted_fee(&FeeAdjustmentConfig::default(), &curr, Some(&prev), 1000, false);
    assert_eq!(r.trend, CongestionTrend::Stable);
    assert_eq!(r.trend_adjustment_bps, 0);
    assert_eq!(r.adjusted_fee_bps, 50);
}

#[test]
fn dynamic_fee_adjustment_tests_test_emergency_override_caps_fees() {
    let mut config = FeeAdjustmentConfig::default();
    config.base_fee_bps = 100;
    config.emergency_fee_cap_bps = 200;
    let m = at_score(100);
    let without = DynamicFeeAdjustment::calculate_adjusted_fee(&config, &m, None, 1000, false);
    let with = DynamicFeeAdjustment::calculate_adjusted_fee(&config, &m, None, 1000, true);
    assert_eq!(without.adjusted_fee_bps, 250);
    assert_eq!(with.adjusted_fee_bps, 200);
}

#[test]
fn test_emergency_override_auto_trigger_multiple_indicators() {
    let (trigger, reason) = EmergencyOverrideManager::should_auto_trigger(&metrics(98, 6000, 20000));
    assert!(trigger);
    assert_eq!(reason, Some(OverrideReason::MultipleTriggers));
}

#[test]
fn test_emergency_override_no_trigger_single_indicator() {
    let (trigger, reason) = EmergencyOverrideManager::should_auto_trigger(&metrics(70, 2000, 5000));
    assert!(!trigger);
    assert_eq!(reason, None);
}

#[test]
fn test_emergency_override_auto_recovery_timeout() {
    let mut o = admin_overrides();
    EmergencyOverrideManager::activate_manual(&mut o, ADMIN, 200, 1000).unwrap();
    assert!(!EmergencyOverrideManager::check_auto_deactivation(&mut o, 1000 + 1799));
    assert!(EmergencyOverrideManager::is_active(&o));
    assert!(EmergencyOverrideManager::check_auto_deactivation(&mut o, 1000 + 1800));
    assert!(!EmergencyOverrideManager::is_active(&o));
}

#[test]
fn test_manual_emergency_override_admin_only() {
    let mut o = admin_overrides();
    assert_eq!(EmergencyOverrideManager::activate_manual(&mut o, STRANGER, 200, 1000), Err(OverrideError::UnauthorizedAdmin));
    assert!(!EmergencyOverrideManager::is_active(&o));
}

#[test]
fn test_fee_history_recording() {
    let mut h = FeeHistoryStorage::new();
    for i in 0..5u64 {
        record(&mut h, 1000 + 100 * i, 40 + i as u32, AdjustmentReason::AutomaticCongestionAdjustment);
    }
    let all = FeeHistoryManager::get_recent_history(&h, 10);
    assert_eq!(all.len(), 5);
    for (i, e) in all.iter().enumerate() {
        assert_eq!(e.timestamp, 1000 + 100 * i as u64);
        assert_eq!(e.fee_bps, 40 + i as u32);
        assert_eq!(e.adjustment_reason, AdjustmentReason::AutomaticCongestionAdjustment);
    }
}

#[test]
fn test_fee_history_pagination() {
    let mut h = FeeHistoryStorage::new();
    for i in 0..100u64 {
        record(&mut h, i, i as u32, AdjustmentReason::AutomaticCongestionAdjustment);
    }
    let (page, total_pages) = FeeHistoryManager::get_fee_changes_paginated(&h, 2, 20);
    assert_eq!(total_pages, 5);
    assert_eq!(page.len(), 20);
    assert_eq!(page[0].fee_bps, 20);
    assert_eq!(page[19].fee_bps, 39);
}

#[test]
fn test_fee_history_statistics_calculation() {
    let mut h = FeeHistoryStorage::new();
    let now = 10 * DAY;
    for (i, f) in [40u32, 60, 90, 150].iter().enumerate() {
        record(&mut h, now - 20000 + 5000 * i as u64, *f, AdjustmentReason::AutomaticCongestionAdjustment);
    }
    let stats = FeeHistoryManager::calculate_statistics(&h, DAY, now);
    assert_eq!(stats.avg_fee_bps, 85);
    assert_eq!(stats.min_fee_bps, 40);
    assert_eq!(stats.max_fee_bps, 150);
    assert_eq!(stats.adjustment_count, 4);
    assert_eq!(stats.fee_volatility, 41);
}

#[test]
fn test_fee_history_cleanup_old_entries() {
    let mut h = FeeHistoryStorage::new();
    let now = 100 * DAY;
    for days_ago in [90u64, 60, 31, 29, 1] {
        record(&mut h, now - days_ago * DAY, 50, AdjustmentReason::AutomaticCongestionAdjustment);
    }
    FeeHistoryManager::cleanup_old_history(&mut h, 30, now);
    let kept = FeeHistoryManager::get_recent_history(&h, 10);
    assert_eq!(kept.len(), 2);
    assert_eq!(kept[0].timestamp, now - 29 * DAY);
    assert_eq!(kept[1].timestamp, now - DAY);
}

#[test]
fn test_fee_adjustment_cooldown() {
    let mut s = manager(0);
    FeeAdjustmentManager::update_fees_for_congestion(&mut s, at_score(10), 1000).unwrap();
    assert_eq!(FeeAdjustmentManager::update_fees_for_congestion(&mut s, at_score(90), 1030), Err(FeeManagerError::UpdateCooldownNotElapsed));
}

#[test]
fn test_fee_adjustment_cooldown_respected_at_limit() {
    let mut s = manager(0);
    FeeAdjustmentManager::update_fees_for_congestion(&mut s, at_score(10), 1000).unwrap();
    assert!(FeeAdjustmentManager::update_fees_for_congestion(&mut s, at_score(90), 1060).is_ok());
}

#[test]
fn test_config_validation_min_max_bounds() {
    let mut s = manager(0);
    let mut config = FeeAdjustmentConfig::default();
    config.min_fee_bps = 600;
    config.max_fee_bps = 500;
    assert!(FeeAdjustmentManager::update_config(&mut s, ADMIN, config, 10).is_err());
    assert_eq!(FeeAdjustmentManager::get_config(&s).unwrap(), FeeAdjustmentConfig::default());
}

#[test]
fn test_config_validation_base_within_bounds() {
    let mut s = manager(0);
    let mut config = FeeAdjustmentConfig::default();
    config.base_fee_bps = 600;
    assert_eq!(FeeAdjustmentManager::update_config(&mut s, ADMIN, config, 10), Err(FeeManagerError::BaseFeeExceedsMaxFee));
}

#[test]
fn test_event_emission_on_fee_change() {
    let mut s = manager(0);
    FeeAdjustmentManager::update_fees_manual(&mut s, ADMIN, 75, 100).unwrap();
    assert_eq!(
        s.events.last(),
        Some(&FeeEvent::FeeAdjustmentApplied { previous_fee_bps: 50, new_fee_bps: 75, automatic: false, congestion: None, timestamp: 100 })
    );
}

#[test]
fn test_event_emission_on_congestion_change() {
    let mut s = manager(0);
    FeeAdjustmentManager::update_fees_for_congestion(&mut s, at_score(30), 100).unwrap();
    FeeAdjustmentManager::update_fees_for_congestion(&mut s, at_score(70), 200).unwrap();
    match s.events.last() {
        Some(FeeEvent::FeeAdjustmentApplied { congestion, automatic, .. }) => {
            assert_eq!(*congestion, Some(CongestionLevel::High));
            assert!(*automatic);
        },
        other => panic!("unexpected event {:?}", other),
    }
}

#[test]
fn test_event_emission_on_emergency_activation() {
    let mut s = manager(0);
    FeeAdjustmentManager::add_emergency_admin(&mut s, ADMIN);
    FeeAdjustmentManager::activate_emergency_override(&mut s, ADMIN, 200, 100).unwrap();
    assert_eq!(s.events.last(), Some(&FeeEvent::EmergencyFeeOverrideActivated { fee_cap_bps: 200, automatic: false, timestamp: 100 }));
}

#[test]
fn test_event_emission_on_emergency_deactivation() {
    let mut s = manager(0);
    FeeAdjustmentManager::add_emergency_admin(&mut s, ADMIN);
    FeeAdjustmentManager::activate_emergency_override(&mut s, ADMIN, 200, 100).unwrap();
    FeeAdjustmentManager::deactivate_emergency_override(&mut s, ADMIN, 150).unwrap();
    assert_eq!(s.events.last(), Some(&FeeEvent::EmergencyFeeOverrideDeactivated { timestamp: 150 }));
}

#[test]
fn test_fee_impact_calculation_increase() {
    let impact = DynamicFeeAdjustment::calculate_fee_impact(50, 125, 1_000_000);
    assert_eq!(impact.original_fee, 5000);
    assert_eq!(impact.adjusted_fee, 12500);
    assert_eq!(impact.fee_difference, 7500);
    assert_eq!(impact.fee_difference_percent, 150);
}

#[test]
fn test_fee_impact_calculation_decrease() {
    let impact = DynamicFeeAdjustment::calculate_fee_impact(100, 75, 1_000_000);
    assert_eq!(impact.original_fee, 10000);
    assert_eq!(impact.adjusted_fee, 7500);
    assert_eq!(impact.fee_difference, 0);
    assert_eq!(impact.fee_difference_percent, -25);
}

#[test]
fn test_congestion_level_transitions() {
    let expected = [
        (10, CongestionLevel::VeryLow),
        (30, CongestionLevel::Low),
        (50, CongestionLevel::Moderate),
        (70, CongestionLevel::High),
        (90, CongestionLevel::Critical),
    ];
    for (p, level) in expected {
        assert_eq!(NetworkCongestionMonitor::get_current_congestion_level(&at_score(p)), level);
    }
}

#[test]
fn test_gas_price_factor_scaling() {
    let mut last = 0;
    for gas in (100..=5000u64).step_by(490) {
        let f = NetworkCongestionMonitor::calculate_gas_factor(gas);
        assert!(f >= last && f <= 100);
        last = f;
    }
    assert_eq!(NetworkCongestionMonitor::calculate_gas_factor(100), 0);
    assert_eq!(NetworkCongestionMonitor::calculate_gas_factor(5000), 100);
}

#[test]
fn test_volume_factor_scaling() {
    for tps in (0..=1000u64).step_by(100) {
        assert_eq!(NetworkCongestionMonitor::calculate_volume_factor(tps) as u64, tps / 10);
    }
}

#[test]
fn test_pending_transaction_factor_scaling() {
    assert_eq!(NetworkCongestionMonitor::calculate_pending_factor(0), 0);
    assert_eq!(NetworkCongestionMonitor::calculate_pending_factor(2500), 25);
    assert_eq!(NetworkCongestionMonitor::calculate_pending_factor(7500), 75);
    assert_eq!(NetworkCongestionMonitor::calculate_pending_factor(15000), 100);
}

#[test]
fn test_user_fee_snapshot_recording() {
    let mut h = FeeHistoryStorage::new();
    let snap = FeeSnapshot { timestamp: 500, fee_bps: 45, congestion_level: CongestionLevel::Low };
    FeeHistoryManager::record_user_fee(&mut h, 9, snap);
    assert_eq!(FeeHistoryManager::get_user_fee(&h, 9), Some(snap));
}

#[test]
fn test_user_fee_snapshot_retrieval() {
    let mut h = FeeHistoryStorage::new();
    FeeHistoryManager::record_user_fee(&mut h, 9, FeeSnapshot { timestamp: 500, fee_bps: 45, congestion_level: CongestionLevel::Low });
    FeeHistoryManager::record_user_fee(&mut h, 10, FeeSnapshot { timestamp: 600, fee_bps: 75, congestion_level: CongestionLevel::High });
    let s = FeeHistoryManager::get_user_fee(&h, 10).unwrap();
    assert_eq!(s.fee_bps, 75);
    assert_eq!(s.congestion_level, CongestionLevel::High);
    assert_eq!(FeeHistoryManager::get_user_fee(&h, 11), None);
}

#[test]
fn test_multiplier_precision_accuracy() {
    assert_eq!(DynamicFeeAdjustment::apply_multiplier(50, 80), 40);
    assert_eq!(DynamicFeeAdjustment::apply_multiplier(50, 90), 45);
    assert_eq!(DynamicFeeAdjustment::apply_multiplier(50, 155), 77);
    assert_eq!(DynamicFeeAdjustment::apply_multiplier(333, 150), 499);
}

#[test]
fn test_concurrent_fee_changes_not_allowed() {
    let mut s = manager(0);
    FeeAdjustmentManager::update_fees_manual(&mut s, ADMIN, 60, 10).unwrap();
    FeeAdjustmentManager::update_fees_manual(&mut s, ADMIN, 70, 20).unwrap();
    assert_eq!(FeeAdjustmentManager::get_current_fee(&s), Some(70));
    assert_eq!(FeeAdjustmentManager::get_previous_fee(&s), Some(60));
}

#[test]
fn test_network_metrics_snapshot_storage() {
    let mut s = manager(0);
    let m = metrics(42, 1234, 567);
    FeeAdjustmentManager::update_fees_for_congestion(&mut s, m, 100).unwrap();
    assert_eq!(FeeAdjustmentManager::get_network_metrics(&s), Some(m));
}

#[test]
fn test_trend_calculation_accuracy() {
    let a = at_score(10);
    let b = at_score(50);
    let c = at_score(55);
    assert_eq!(NetworkCongestionMonitor::calculate_trend(&b, &a), CongestionTrend::Increasing);
    assert_eq!(NetworkCongestionMonitor::calculate_trend(&c, &b), CongestionTrend::Stable);
    assert_eq!(NetworkCongestionMonitor::calculate_trend(&a, &c), CongestionTrend::Decreasing);
}

#[test]
fn test_authorization_for_manual_override() {
    let mut s = manager(0);
    FeeAdjustmentManager::add_emergency_admin(&mut s, ADMIN);
    assert_eq!(
        FeeAdjustmentManager::activate_emergency_override(&mut s, STRANGER, 200, 100),
        Err(FeeManagerError::Override(OverrideError::UnauthorizedAdmin))
    );
    assert_eq!(FeeAdjustmentManager::get_emergency_override_state(&s).status, OverrideStatus::Inactive);
}

#[test]
fn test_authorization_for_config_update() {
    let mut s = manager(0);
    let mut config = FeeAdjustmentConfig::default();
    config.max_fee_bps = 2000;
    assert_eq!(FeeAdjustmentManager::update_config(&mut s, STRANGER, config, 10), Err(FeeManagerError::MaxFeeExceedsTenPercent));
    config.max_fee_bps = 400;
    FeeAdjustmentManager::update_config(&mut s, ADMIN, config, 20).unwrap();
    assert_eq!(s.events.last(), Some(&FeeEvent::FeeConfigurationUpdated { admin: ADMIN, timestamp: 20 }));
}

#[test]
fn test_fee_bounce_back_prevention() {
    let a = fee(&at_score(39), None, false);
    let b = fee(&at_score(41), None, false);
    assert!(b >= a && b - a <= 5);
}

#[test]
fn test_extreme_gas_price_handling() {
    let m = metrics(50, 50_000, 100);
    assert_eq!(NetworkCongestionMonitor::calculate_gas_factor(50_000), 100);
    let f = fee(&m, None, false);
    assert!(f >= 10 && f <= 500);
}

#[test]
fn test_extreme_pending_transaction_handling() {
    let m = metrics(50, 1000, 20_000);
    assert_eq!(NetworkCongestionMonitor::calculate_pending_factor(20_000), 100);
    let f = fee(&m, None, false);
    assert!(f >= 10 && f <= 500);
}

#[test]
fn test_initialization_state_validity() {
    let s = manager(7);
    let info = FeeAdjustmentManager::get_fee_adjustment_info(&s).unwrap();
    assert_eq!(info.current_fee_bps, 50);
    assert_eq!(info.previous_fee_bps, 50);
    assert_eq!(info.congestion_level, CongestionLevel::Moderate);
    assert!(!info.emergency_override_active);
    let log = FeeHistoryManager::get_recent_history(&s.history, 10);
    assert_eq!(log.len(), 1);
    assert_eq!(log[0].adjustment_reason, AdjustmentReason::SystemInitialization);
}

#[test]
fn test_recovery_from_critical_state() {
    let mut s = manager(0);
    FeeAdjustmentManager::update_fees_for_congestion(&mut s, metrics(99, 8000, 20000), 100).unwrap();
    assert!(EmergencyOverrideManager::is_active(&s.overrides));
    FeeAdjustmentManager::update_fees_for_congestion(&mut s, at_score(20), 100 + 1800).unwrap();
    assert!(!EmergencyOverrideManager::is_active(&s.overrides));
    assert!(FeeAdjustmentManager::get_current_fee(&s).unwrap() < 125);
}

#[test]
fn test_statistics_with_empty_history() {
    let h = FeeHistoryStorage::new();
    let stats = FeeHistoryManager::calculate_statistics(&h, DAY, 10 * DAY);
    assert_eq!(stats.adjustment_count, 0);
    assert_eq!(stats.avg_fee_bps, 0);
    assert_eq!(stats.fee_volatility, 0);
}

#[test]
fn test_statistics_with_single_entry() {
    let mut h = FeeHistoryStorage::new();
    record(&mut h, 10 * DAY - 10, 70, AdjustmentReason::AutomaticCongestionAdjustment);
    let stats = FeeHistoryManager::calculate_statistics(&h, DAY, 10 * DAY);
    assert_eq!(stats.min_fee_bps, 70);
    assert_eq!(stats.max_fee_bps, 70);
    assert_eq!(stats.avg_fee_bps, 70);
    assert_eq!(stats.fee_volatility, 0);
}

#[test]
fn test_user_fee_overwrite() {
    let mut h = FeeHistoryStorage::new();
    FeeHistoryManager::record_user_fee(&mut h, 9, FeeSnapshot { timestamp: 1, fee_bps: 40, congestion_level: CongestionLevel::VeryLow });
    FeeHistoryManager::record_user_fee(&mut h, 9, FeeSnapshot { timestamp: 2, fee_bps: 90, congestion_level: CongestionLevel::High });
    assert_eq!(FeeHistoryManager::get_user_fee(&h, 9).unwrap().fee_bps, 90);
}

#[test]
fn test_adjustment_reason_accuracy() {
    let mut h = FeeHistoryStorage::new();
    let reasons = [AdjustmentReason::ManualAdminAdjustment, AdjustmentReason::EmergencyOverride, AdjustmentReason::EmergencyRecovery];
    for (i, r) in reasons.iter().enumerate() {
        record(&mut h, i as u64, 50, *r);
    }
    let log = FeeHistoryManager::get_recent_history(&h, 10);
    for (i, r) in reasons.iter().enumerate() {
        assert_eq!(log[i].adjustment_reason, *r);
    }
}

#[test]
fn test_history_capacity_limit() {
    let mut h = FeeHistoryStorage::new();
    let mut full = Vec::new();
    for i in 0..FeeHistoryManager::MAX_HISTORY_ENTRIES {
        full.push(swaptrade::fee_history::FeeHistoryEntry {
            timestamp: i as u64,
            fee_bps: 50,
            previous_fee_bps: 50,
            congestion_level: CongestionLevel::Moderate,
            network_metrics: at_score(50),
            adjustment_reason: AdjustmentReason::AutomaticCongestionAdjustment,
            triggered_by: TriggeredBy::Auto,
        });
    }
    h.history = Some(full);
    record(&mut h, 20_000, 60, AdjustmentReason::AutomaticCongestionAdjustment);
    let log = h.history.as_ref().unwrap();
    assert_eq!(log.len(), FeeHistoryManager::MAX_HISTORY_ENTRIES);
    assert_eq!(log[0].timestamp, 1);
    assert_eq!(log[log.len() - 1].timestamp, 20_000);
}

#[test]
fn test_stability_under_oscillating_metrics() {
    let mut s = manager(0);
    let mut t = 100;
    for i in 0..10 {
        let m = if i % 2 == 0 { at_score(70) } else { at_score(30) };
        assert!(FeeAdjustmentManager::update_fees_for_congestion(&mut s, m, t).is_ok());
        let f = FeeAdjustmentManager::get_current_fee(&s).unwrap();
        assert!(f >= 10 && f <= 500);
        t += 60;
    }
}

#[test]
fn test_fee_zero_not_possible() {
    let mut config = FeeAdjustmentConfig::default();
    config.base_fee_bps = 0;
    config.very_low_multiplier = 0;
    let r = DynamicFeeAdjustment::calculate_adjusted_fee(&config, &at_score(0), None, 0, false);
    assert_eq!(r.adjusted_fee_bps, config.min_fee_bps);
    assert!(r.adjusted_fee_bps > 0);
}

#[test]
fn test_timestamp_monotonicity_in_history() {
    let mut s = manager(0);
    let mut t = 100;
    for p in [10u64, 50, 90, 30, 70] {
        FeeAdjustmentManager::update_fees_for_congestion(&mut s, at_score(p), t).unwrap();
        t += 100;
    }
    let log = FeeHistoryManager::get_recent_history(&s.history, 100);
    for w in log.windows(2) {
        assert!(w[0].timestamp <= w[1].timestamp);
    }
}

#[test]
fn test_fee_calculation_deterministic() {
    let m = at_score(63);
    let p = at_score(20);
    let a = DynamicFeeAdjustment::calculate_adjusted_fee(&FeeAdjustmentConfig::default(), &m, Some(&p), 5, false);
    let b = DynamicFeeAdjustment::calculate_adjusted_fee(&FeeAdjustmentConfig::default(), &m, Some(&p), 5, false);
    assert_eq!(a, b);
}

#[test]
fn test_emergency_state_persistence() {
    let mut o = admin_overrides();
    EmergencyOverrideManager::activate_manual(&mut o, ADMIN, 220, 1000).unwrap();
    let state = EmergencyOverrideManager::get_state(&o);
    assert_eq!(state.status, OverrideStatus::Active);
    assert_eq!(state.fee_cap_bps, 220);
    assert_eq!(state.activated_by, Some(ADMIN));
    assert_eq!(EmergencyOverrideManager::get_time_until_auto_deactivation(&o, 1100), Some(1700));
}

#[test]
fn test_config_update_immediate_effect() {
    let mut s = manager(0);
    let mut config = FeeAdjustmentConfig::default();
    config.max_fee_bps = 80;
    config.emergency_fee_cap_bps = 80;
    FeeAdjustmentManager::update_config(&mut s, ADMIN, config, 10).unwrap();
    assert_eq!(FeeAdjustmentManager::update_fees_manual(&mut s, ADMIN, 100, 20), Err(FeeManagerError::FeeOutOfBounds));
    FeeAdjustmentManager::update_fees_for_congestion(&mut s, at_score(100), 100).unwrap();
    assert_eq!(FeeAdjustmentManager::get_current_fee(&s), Some(80));
}
