use swaptrade::congestion::{CongestionLevel, NetworkMetrics};
use swaptrade::dynamic_fee::{DynamicFeeAdjustment, FeeAdjustmentConfig};
use swaptrade::emergency::{EmergencyOverrideManager, OverrideError, OverrideStatus};
use swaptrade::fee_history::{AdjustmentReason, FeeHistoryEntry, FeeHistoryManager, FeeHistoryStorage, TriggeredBy};
use swaptrade::fee_manager::{FeeAdjustmentManager, FeeEvent, FeeManagerError, FeeManagerStorage};

const ADMIN: u64 = 1;
const ATTACKER: u64 = 666;

fn at_score(p: u64) -> NetworkMetrics {
    NetworkMetrics {
        txn_volume_tps: 10 * p,
        avg_gas_price: 100 + 49 * p,
        pending_txn_count: 100 * p,
        ledger_close_time: 1000,
        capacity_utilization_percent: p as u32,
        timestamp: 1000,
        avg_confirmation_time_ms: 2000,
    }
}

fn manager() -> FeeManagerStorage {
    let mut s = FeeManagerStorage::new();
    FeeAdjustmentManager::initialize(&mut s, FeeAdjustmentConfig::default(), at_score(50), 0);
    FeeAdjustmentManager::add_emergency_admin(&mut s, ADMIN);
    s
}

fn entry(t: u64, fee_bps: u32) -> FeeHistoryEntry {
    FeeHistoryEntry {
        timestamp: t,
        fee_bps,
        previous_fee_bps: 50,
        congestion_level: CongestionLevel::Moderate,
        network_metrics: at_score(50),
        adjustment_reason: AdjustmentReason::AutomaticCongestionAdjustment,
        triggered_by: TriggeredBy::Auto,
    }
}

fn full_history(n: usize, fee_of: impl Fn(usize) -> u32) -> FeeHistoryStorage {
    let mut h = FeeHistoryStorage::new();
    h.history = Some((0..n).map(|i| entry(i as u64, fee_of(i))).collect());
    h
}

#[test]
fn test_prevent_fee_downward_manipulation() {
    let mut s = manager();
    FeeAdjustmentManager::update_fees_for_congestion(&mut s, at_score(70), 1000).unwrap();
    let fee = FeeAdjustmentManager::get_current_fee(&s).unwrap();
    assert_eq!(FeeAdjustmentManager::update_fees_for_congestion(&mut s, at_score(0), 1010), Err(FeeManagerError::UpdateCooldownNotElapsed));
    assert_eq!(FeeAdjustmentManager::get_current_fee(&s), Some(fee));
    assert_eq!(FeeAdjustmentManager::update_fees_manual(&mut s, ATTACKER, 1, 1020), Err(FeeManagerError::FeeOutOfBounds));
}

#[test]
fn test_prevent_fee_inflation_attack() {
    let mut s = manager();
    let extreme = NetworkMetrics {
        txn_volume_tps: u64::MAX,
        avg_gas_price: u64::MAX,
        pending_txn_count: u64::MAX,
        ledger_close_time: 0,
        capacity_utilization_percent: u32::MAX,
        timestamp: 0,
        avg_confirmation_time_ms: u32::MAX,
    };
    let r = FeeAdjustmentManager::update_fees_for_congestion(&mut s, extreme, 1000).unwrap();
    assert!(r.adjusted_fee_bps <= 500);
    assert!(r.emergency_override_active);
    assert!(r.adjusted_fee_bps <= FeeAdjustmentConfig::default().emergency_fee_cap_bps);
}

#[test]
fn test_prevent_unauthorized_manual_fee_update() {
    let mut s = manager();
    assert_eq!(FeeAdjustmentManager::update_fees_manual(&mut s, ATTACKER, 501, 10), Err(FeeManagerError::FeeOutOfBounds));
    FeeAdjustmentManager::update_fees_manual(&mut s, ADMIN, 60, 20).unwrap();
    let last = *FeeHistoryManager::get_recent_history(&s.history, 1).last().unwrap();
    assert_eq!(last.triggered_by, TriggeredBy::Admin(ADMIN));
}

#[test]
fn test_prevent_unauthorized_emergency_override() {
    let mut s = manager();
    let events = s.events.len();
    let r = FeeAdjustmentManager::activate_emergency_override(&mut s, ATTACKER, 10, 100);
    assert_eq!(r, Err(FeeManagerError::Override(OverrideError::UnauthorizedAdmin)));
    assert_eq!(r.unwrap_err().message(), "Unauthorized admin");
    assert_eq!(s.events.len(), events);
    assert_eq!(FeeAdjustmentManager::get_emergency_override_state(&s).status, OverrideStatus::Inactive);
}

#[test]
fn test_prevent_overflow_in_multiplier_calculation() {
    assert_eq!(DynamicFeeAdjustment::apply_multiplier(1000, 300), 3000);
    let mut config = FeeAdjustmentConfig::default();
    config.base_fee_bps = 1000;
    config.critical_multiplier = 300;
    let r = DynamicFeeAdjustment::calculate_adjusted_fee(&config, &at_score(100), None, 0, false);
    assert_eq!(r.adjusted_fee_bps, 500);
    assert_eq!(DynamicFeeAdjustment::apply_multiplier(u32::MAX, 100), u32::MAX);
}

#[test]
fn test_prevent_underflow_in_fee_reduction() {
    let r = DynamicFeeAdjustment::calculate_adjusted_fee(&FeeAdjustmentConfig::default(), &at_score(0), None, 0, false);
    assert_eq!(r.adjusted_fee_bps, 40);
    let mut config = FeeAdjustmentConfig::default();
    config.base_fee_bps = 11;
    let prev = at_score(100);
    let r = DynamicFeeAdjustment::calculate_adjusted_fee(&config, &at_score(0), Some(&prev), 0, false);
    assert!(r.adjusted_fee_bps >= config.min_fee_bps);
}

#[test]
fn test_prevent_overflow_in_fee_impact_calculation() {
    let impact = DynamicFeeAdjustment::calculate_fee_impact(1, 1000, 10_000_000_000);
    assert_eq!(impact.adjusted_fee, 1_000_000_000);
    let max = DynamicFeeAdjustment::calculate_fee_impact(500, 1000, u64::MAX);
    assert_eq!(max.adjusted_fee, ((u64::MAX as u128) * 1000 / 10000) as u64);
    assert_eq!(max.fee_difference_percent, 100);
}

#[test]
fn test_prevent_overflow_in_variance_calculation() {
    let h = full_history(10000, |i| if i % 2 == 0 { 0 } else { 1000 });
    let stats = FeeHistoryManager::calculate_statistics(&h, 100_000, 9999);
    assert_eq!(stats.avg_fee_bps, 500);
    assert_eq!(stats.fee_volatility, 500);
}

#[test]
fn test_prevent_overflow_in_timestamp_arithmetic() {
    let now = u64::MAX - 1800;
    let mut s = manager();
    FeeAdjustmentManager::activate_emergency_override(&mut s, ADMIN, 200, now).unwrap();
    let state = FeeAdjustmentManager::get_emergency_override_state(&s);
    assert_eq!(state.auto_deactivate_at, Some(u64::MAX));
    assert!(DynamicFeeAdjustment::can_update_fee(u64::MAX - 10, u64::MAX, 5));
}

#[test]
fn test_prevent_multiple_emergency_overrides() {
    let mut s = manager();
    FeeAdjustmentManager::add_emergency_admin(&mut s, 2);
    FeeAdjustmentManager::activate_emergency_override(&mut s, ADMIN, 200, 10).unwrap();
    assert_eq!(FeeAdjustmentManager::activate_emergency_override(&mut s, 2, 250, 11), Err(FeeManagerError::Override(OverrideError::AlreadyActive)));
    FeeAdjustmentManager::deactivate_emergency_override(&mut s, ADMIN, 12).unwrap();
    FeeAdjustmentManager::activate_emergency_override(&mut s, 2, 250, 13).unwrap();
    assert_eq!(FeeAdjustmentManager::get_emergency_override_state(&s).fee_cap_bps, 250);
}

#[test]
fn test_prevent_fee_history_corruption() {
    let mut s = manager();
    let mut t = 100;
    for p in [10u64, 30, 50, 70, 90] {
        FeeAdjustmentManager::update_fees_for_congestion(&mut s, at_score(p), t).unwrap();
        t += 100;
    }
    let log = FeeHistoryManager::get_recent_history(&s.history, 100);
    assert_eq!(log.len(), 6);
    let times: Vec<u64> = log.iter().map(|e| e.timestamp).collect();
    assert_eq!(times, vec![0, 100, 200, 300, 400, 500]);
    for w in log.windows(2) {
        assert_eq!(w[1].previous_fee_bps, w[0].fee_bps);
    }
}

#[test]
fn test_prevent_config_downgrade_attack() {
    let mut s = manager();
    let mut c = FeeAdjustmentConfig::default();
    c.max_fee_bps = 10000;
    assert_eq!(FeeAdjustmentManager::update_config(&mut s, ATTACKER, c, 10), Err(FeeManagerError::MaxFeeExceedsTenPercent));
    assert_eq!(FeeAdjustmentManager::get_config(&s).unwrap(), FeeAdjustmentConfig::default());
}

#[test]
fn test_prevent_cooldown_bypass() {
    let mut s = manager();
    FeeAdjustmentManager::update_fees_for_congestion(&mut s, at_score(30), 1000).unwrap();
    assert!(FeeAdjustmentManager::update_fees_for_congestion(&mut s, at_score(70), 1010).is_err());
    assert!(FeeAdjustmentManager::update_fees_for_congestion(&mut s, at_score(70), 1060).is_ok());
}

#[test]
fn test_admin_authorization_enforcement() {
    let mut s = manager();
    assert_eq!(
        FeeAdjustmentManager::activate_emergency_override(&mut s, ATTACKER, 200, 10),
        Err(FeeManagerError::Override(OverrideError::UnauthorizedAdmin))
    );
    FeeAdjustmentManager::activate_emergency_override(&mut s, ADMIN, 200, 10).unwrap();
    assert_eq!(
        FeeAdjustmentManager::deactivate_emergency_override(&mut s, ATTACKER, 11),
        Err(FeeManagerError::Override(OverrideError::UnauthorizedAdmin))
    );
    assert!(EmergencyOverrideManager::is_active(&s.overrides));
}

#[test]
fn test_emergency_admin_list_validation() {
    let mut s = manager();
    FeeAdjustmentManager::add_emergency_admin(&mut s, ATTACKER);
    FeeAdjustmentManager::remove_emergency_admin(&mut s, ATTACKER);
    assert!(FeeAdjustmentManager::activate_emergency_override(&mut s, ATTACKER, 200, 10).is_err());
    assert!(FeeAdjustmentManager::activate_emergency_override(&mut s, ADMIN, 200, 10).is_ok());
}

#[test]
fn test_authorization_chain_of_custody() {
    let mut s = manager();
    FeeAdjustmentManager::activate_emergency_override(&mut s, ADMIN, 200, 10).unwrap();
    assert_eq!(FeeAdjustmentManager::get_emergency_override_state(&s).activated_by, Some(ADMIN));
    assert!(FeeAdjustmentManager::deactivate_emergency_override(&mut s, 3, 11).is_err());
    FeeAdjustmentManager::update_fees_manual(&mut s, 3, 70, 12).unwrap();
    let last = *FeeHistoryManager::get_recent_history(&s.history, 1).last().unwrap();
    assert_eq!(last.triggered_by, TriggeredBy::Admin(3));
}

#[test]
fn test_event_integrity_for_audit_trail() {
    let mut s = manager();
    FeeAdjustmentManager::update_fees_manual(&mut s, ADMIN, 80, 10).unwrap();
    FeeAdjustmentManager::update_fees_manual(&mut s, ADMIN, 90, 20).unwrap();
    assert_eq!(
        s.events,
        vec![
            FeeEvent::FeeAdjustmentApplied { previous_fee_bps: 50, new_fee_bps: 80, automatic: false, congestion: None, timestamp: 10 },
            FeeEvent::FeeAdjustmentApplied { previous_fee_bps: 80, new_fee_bps: 90, automatic: false, congestion: None, timestamp: 20 },
        ]
    );
}

#[test]
fn test_event_completeness_for_monitoring() {
    let mut s = manager();
    let mut t = 100;
    for i in 0..10u32 {
        FeeAdjustmentManager::update_fees_manual(&mut s, ADMIN, 60 + i, t).unwrap();
        t += 1;
    }
    let changes = s.events.iter().filter(|e| matches!(e, FeeEvent::FeeAdjustmentApplied { .. })).count();
    assert_eq!(changes, 10);
    FeeAdjustmentManager::activate_emergency_override(&mut s, ADMIN, 200, t).unwrap();
    assert!(matches!(s.events.last(), Some(FeeEvent::EmergencyFeeOverrideActivated { .. })));
}

#[test]
fn test_prevent_storage_exhaustion_via_history() {
    let mut h = full_history(FeeHistoryManager::MAX_HISTORY_ENTRIES, |_| 50);
    let result = DynamicFeeAdjustment::calculate_adjusted_fee(&FeeAdjustmentConfig::default(), &at_score(50), None, 20_000, false);
    for _ in 0..50 {
        FeeHistoryManager::record_fee_adjustment(&mut h, &result, 50, &at_score(50), TriggeredBy::Auto, AdjustmentReason::AutomaticCongestionAdjustment);
    }
    let log = h.history.as_ref().unwrap();
    assert_eq!(log.len(), FeeHistoryManager::MAX_HISTORY_ENTRIES);
    assert_eq!(log[0].timestamp, 50);
    assert_eq!(FeeHistoryManager::get_recent_history(&h, 5).len(), 5);
}

#[test]
fn test_prevent_cooldown_dos_via_ceiling() {
    let mut s = manager();
    let mut c = FeeAdjustmentConfig::default();
    c.update_cooldown_seconds = 1;
    FeeAdjustmentManager::update_config(&mut s, ADMIN, c, 0).unwrap();
    FeeAdjustmentManager::update_fees_for_congestion(&mut s, at_score(70), 10).unwrap();
    FeeAdjustmentManager::update_fees_for_congestion(&mut s, at_score(30), 11).unwrap();
    let f = FeeAdjustmentManager::get_current_fee(&s).unwrap();
    assert!(f >= c.min_fee_bps && f <= c.max_fee_bps);
}

#[test]
fn test_prevent_gas_exhaustion_in_calculations() {
    let h = full_history(FeeHistoryManager::MAX_HISTORY_ENTRIES, |i| 40 + (i % 100) as u32);
    let stats = FeeHistoryManager::calculate_statistics(&h, 1_000_000, 20_000);
    assert_eq!(stats.adjustment_count as usize, FeeHistoryManager::MAX_HISTORY_ENTRIES);
    assert_eq!(stats.min_fee_bps, 40);
    assert_eq!(stats.max_fee_bps, 139);
}

#[test]
fn test_prevent_fee_truncation_underflow() {
    let impact = DynamicFeeAdjustment::calculate_fee_impact(1, 1, 1);
    assert_eq!(impact.original_fee, 0);
    assert_eq!(impact.adjusted_fee, 0);
    assert_eq!(impact.fee_difference_percent, 0);
}

#[test]
fn test_rounding_consistency_across_calls() {
    for amount in [1u64, 999, 10_001, 123_456_789] {
        let a = DynamicFeeAdjustment::calculate_fee_impact(33, 77, amount);
        let b = DynamicFeeAdjustment::calculate_fee_impact(33, 77, amount);
        assert_eq!(a, b);
        assert_eq!(a.original_fee, amount * 33 / 10000);
    }
}

#[test]
fn test_metrics_from_trusted_source() {
    let mut s = manager();
    let m = at_score(70);
    FeeAdjustmentManager::update_fees_for_congestion(&mut s, m, 100).unwrap();
    assert_eq!(FeeAdjustmentManager::get_network_metrics(&s), Some(m));
    let info = FeeAdjustmentManager::get_fee_adjustment_info(&s).unwrap();
    assert_eq!(info.network_metrics, m);
    assert_eq!(info.last_update, 100);
}

#[test]
fn test_current_previous_fee_consistency() {
    let mut s = manager();
    FeeAdjustmentManager::update_fees_for_congestion(&mut s, at_score(70), 100).unwrap();
    assert_eq!(FeeAdjustmentManager::get_previous_fee(&s), Some(50));
    let cur = FeeAdjustmentManager::get_current_fee(&s).unwrap();
    FeeAdjustmentManager::update_fees_for_congestion(&mut s, at_score(10), 200).unwrap();
    assert_eq!(FeeAdjustmentManager::get_previous_fee(&s), Some(cur));
}

#[test]
fn test_metrics_snapshot_consistency() {
    let mut s = manager();
    let mut a = at_score(30);
    a.timestamp = 100;
    let mut b = at_score(60);
    b.timestamp = 200;
    FeeAdjustmentManager::update_fees_for_congestion(&mut s, a, 100).unwrap();
    FeeAdjustmentManager::update_fees_for_congestion(&mut s, b, 200).unwrap();
    assert_eq!(s.previous_metrics, Some(b));
    assert_eq!(s.network_metrics, Some(b));
    assert!(a.timestamp <= b.timestamp);
}

#[test]
fn test_config_invariants_maintained() {
    let mut s = manager();
    let candidates = [(5u32, 50u32, 500u32), (60, 50, 500), (10, 600, 500), (10, 50, 1500), (20, 20, 20)];
    for (min, base, max) in candidates {
        let mut c = FeeAdjustmentConfig::default();
        c.min_fee_bps = min;
        c.base_fee_bps = base;
        c.max_fee_bps = max;
        let _ = FeeAdjustmentManager::update_config(&mut s, ADMIN, c, 1);
        let stored = FeeAdjustmentManager::get_config(&s).unwrap();
        assert!(stored.min_fee_bps <= stored.base_fee_bps);
        assert!(stored.base_fee_bps <= stored.max_fee_bps);
        assert!(stored.max_fee_bps <= 1000);
    }
}

#[test]
fn test_prevent_invalid_multipliers() {
    let mut s = manager();
    let mut c = FeeAdjustmentConfig::default();
    c.very_low_multiplier = 0;
    assert_eq!(FeeAdjustmentManager::update_config(&mut s, ADMIN, c, 1), Err(FeeManagerError::ZeroMultiplier));
    c.very_low_multiplier = 1;
    assert!(FeeAdjustmentManager::update_config(&mut s, ADMIN, c, 2).is_ok());
    let mut d = FeeAdjustmentConfig::default();
    d.critical_multiplier = 0;
    assert_eq!(FeeAdjustmentManager::update_config(&mut s, ADMIN, d, 3), Err(FeeManagerError::ZeroMultiplier));
}

#[test]
fn emergency_cap_above_ceiling_is_refused() {
    let mut s = manager();
    let mut c = FeeAdjustmentConfig::default();
    c.max_fee_bps = 500;
    c.emergency_fee_cap_bps = 600;
    assert_eq!(FeeAdjustmentManager::update_config(&mut s, ADMIN, c, 1), Err(FeeManagerError::EmergencyCapExceedsMaxFee));
    c.emergency_fee_cap_bps = 500;
    assert!(FeeAdjustmentManager::update_config(&mut s, ADMIN, c, 2).is_ok());
}

#[test]
fn override_deadline_saturates_at_the_end_of_time() {
    let mut o = swaptrade::emergency::OverrideStorage::new();
    EmergencyOverrideManager::initialize(&mut o);
    EmergencyOverrideManager::add_authorized_admin(&mut o, ADMIN);
    let t = u64::MAX - 100;
    assert_eq!(EmergencyOverrideManager::activate_manual(&mut o, ADMIN, 200, t), Ok(()));
    let st = EmergencyOverrideManager::get_state(&o);
    assert_eq!(st.auto_deactivate_at, Some(u64::MAX));
}
