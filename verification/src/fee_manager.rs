//! Fee adjustment manager: the contract state machine that ties congestion
//! monitoring, fee calculation, the emergency override and the fee history
//! together. Ledger time is passed in; emitted events are appended to the
//! state's event log.
use vstd::prelude::*;
use crate::congestion::{
    CongestionLevel, CongestionTrend, NetworkMetrics, NetworkCongestionMonitor, congestion_level_of,
};
use crate::dynamic_fee::{
    DynamicFeeAdjustment, FeeAdjustmentConfig, FeeAdjustmentResult, fee_adjustment_result,
};
use crate::emergency::{
    AccountId, EmergencyOverrideManager, EmergencyOverrideState, OverrideError, OverrideReason,
    OverrideStorage, activated_state, auto_trigger_decision, auto_trigger_reason, automatic_fee_cap,
    deactivated_state,
};
use crate::fee_history::{
    AdjustmentReason, FeeHistoryEntry, FeeHistoryManager, FeeHistoryStorage, TriggeredBy, appended_log,
};

verus! {

/// Complete fee adjustment information.
#[derive(Clone, Copy, Debug, PartialEq, Eq, Structural)]
pub struct FeeAdjustmentInfo {
    pub current_fee_bps: u32,
    pub previous_fee_bps: u32,
    pub congestion_level: CongestionLevel,
    pub config: FeeAdjustmentConfig,
    pub emergency_override_active: bool,
    pub network_metrics: NetworkMetrics,
    pub last_update: u64,
}

/// Events published by the fee manager.
#[derive(Clone, Copy, Debug, PartialEq, Eq, Structural)]
pub enum FeeEvent {
    /// The trading fee changed. `congestion` is None for manual changes.
    FeeAdjustmentApplied {
        previous_fee_bps: u32,
        new_fee_bps: u32,
        automatic: bool,
        congestion: Option<CongestionLevel>,
        timestamp: u64,
    },
    /// The emergency override was activated.
    EmergencyFeeOverrideActivated { fee_cap_bps: u32, automatic: bool, timestamp: u64 },
    /// The emergency override was deactivated.
    EmergencyFeeOverrideDeactivated { timestamp: u64 },
    /// The configuration was replaced.
    FeeConfigurationUpdated { admin: AccountId, timestamp: u64 },
}

/// Errors of the fee manager.
#[derive(Clone, Copy, Debug, PartialEq, Eq, Structural)]
pub enum FeeManagerError {
    ConfigurationNotInitialized,
    UpdateCooldownNotElapsed,
    FeeOutOfBounds,
    FeeUnchanged,
    MinFeeExceedsBaseFee,
    BaseFeeExceedsMaxFee,
    MaxFeeExceedsTenPercent,
    /// The emergency cap lies above the fee ceiling.
    EmergencyCapExceedsMaxFee,
    /// A congestion multiplier is zero.
    ZeroMultiplier,
    CurrentFeeNotSet,
    MetricsNotAvailable,
    Override(OverrideError),
}

/// Text of a fee-manager error (an override error gives its own text).
pub open spec fn fee_manager_error_text(e: FeeManagerError) -> Seq<char> {
    match e {
        FeeManagerError::ConfigurationNotInitialized => "Configuration not initialized"@,
        FeeManagerError::UpdateCooldownNotElapsed => "Update cooldown not elapsed"@,
        FeeManagerError::FeeOutOfBounds => "Fee out of bounds"@,
        FeeManagerError::FeeUnchanged => "Fee unchanged"@,
        FeeManagerError::MinFeeExceedsBaseFee => "Min fee exceeds base fee"@,
        FeeManagerError::BaseFeeExceedsMaxFee => "Base fee exceeds max fee"@,
        FeeManagerError::MaxFeeExceedsTenPercent => "Max fee exceeds 10%"@,
        FeeManagerError::EmergencyCapExceedsMaxFee => "Emergency fee cap exceeds max fee"@,
        FeeManagerError::ZeroMultiplier => "Multiplier must be positive"@,
        FeeManagerError::CurrentFeeNotSet => "Current fee not set"@,
        FeeManagerError::MetricsNotAvailable => "Metrics not available"@,
        FeeManagerError::Override(o) => crate::emergency::override_error_text(o),
    }
}

impl FeeManagerError {
    /// Human-readable message of the error.
    pub fn message(&self) -> (r: &'static str)
        ensures
            r@ == fee_manager_error_text(*self),
    {
        match self {
            FeeManagerError::ConfigurationNotInitialized => "Configuration not initialized",
            FeeManagerError::UpdateCooldownNotElapsed => "Update cooldown not elapsed",
            FeeManagerError::FeeOutOfBounds => "Fee out of bounds",
            FeeManagerError::FeeUnchanged => "Fee unchanged",
            FeeManagerError::MinFeeExceedsBaseFee => "Min fee exceeds base fee",
            FeeManagerError::BaseFeeExceedsMaxFee => "Base fee exceeds max fee",
            FeeManagerError::MaxFeeExceedsTenPercent => "Max fee exceeds 10%",
            FeeManagerError::EmergencyCapExceedsMaxFee => "Emergency fee cap exceeds max fee",
            FeeManagerError::ZeroMultiplier => "Multiplier must be positive",
            FeeManagerError::CurrentFeeNotSet => "Current fee not set",
            FeeManagerError::MetricsNotAvailable => "Metrics not available",
            FeeManagerError::Override(e) => e.message(),
        }
    }
}

/// Persistent state of the fee manager contract.
#[derive(Clone, Debug)]
pub struct FeeManagerStorage {
    pub current_fee: Option<u32>,
    pub previous_fee: Option<u32>,
    pub config: Option<FeeAdjustmentConfig>,
    pub network_metrics: Option<NetworkMetrics>,
    pub previous_metrics: Option<NetworkMetrics>,
    pub last_update: Option<u64>,
    pub overrides: OverrideStorage,
    pub history: FeeHistoryStorage,
    /// Events published so far, oldest first
    pub events: Vec<FeeEvent>,
}

impl FeeManagerStorage {
    /// Empty contract state.
    pub fn new() -> (s: Self)
        ensures
            s.current_fee is None,
            s.previous_fee is None,
            s.config is None,
            s.network_metrics is None,
            s.previous_metrics is None,
            s.last_update is None,
            s.overrides.state is None,
            s.overrides.authorized_admins is None,
            s.history.history is None,
            s.history.user_fees is None,
            s.events@.len() == 0,
    {
        FeeManagerStorage {
            current_fee: None,
            previous_fee: None,
            config: None,
            network_metrics: None,
            previous_metrics: None,
            last_update: None,
            overrides: OverrideStorage::new(),
            history: FeeHistoryStorage::new(),
            events: Vec::new(),
        }
    }

    /// Timestamp of the last automatic update (0 when never updated).
    pub open spec fn last_update_time(self) -> u64 {
        match self.last_update {
            Some(t) => t,
            None => 0,
        }
    }

    /// Current fee as read, falling back to a default.
    pub open spec fn fee_or(self, default: u32) -> u32 {
        match self.current_fee {
            Some(f) => f,
            None => default,
        }
    }
}

/// Metrics used when no metrics were ever stored.
pub open spec fn empty_metrics(now: u64) -> NetworkMetrics {
    NetworkMetrics {
        txn_volume_tps: 0,
        avg_gas_price: 0,
        pending_txn_count: 0,
        ledger_close_time: now,
        capacity_utilization_percent: 0,
        timestamp: now,
        avg_confirmation_time_ms: 0,
    }
}

/// History entry recorded for a fee result.
pub open spec fn history_entry(result: FeeAdjustmentResult, previous_fee_bps: u32, metrics: NetworkMetrics, by: TriggeredBy, reason: AdjustmentReason) -> FeeHistoryEntry {
    FeeHistoryEntry {
        timestamp: result.calculated_at,
        fee_bps: result.adjusted_fee_bps,
        previous_fee_bps,
        congestion_level: result.congestion_level,
        network_metrics: metrics,
        adjustment_reason: reason,
        triggered_by: by,
    }
}

/// Override storage after the override step of an automatic update.
pub open spec fn overrides_after_update(ov: OverrideStorage, m: NetworkMetrics, now: u64) -> OverrideStorage {
    if !ov.is_active_spec() && auto_trigger_decision(m) && auto_trigger_reason(m) is Some {
        OverrideStorage {
            state: Some(activated_state(ov.current_state(), automatic_fee_cap(auto_trigger_reason(m)->0),
                auto_trigger_reason(m)->0, None, now)),
            ..ov
        }
    } else if ov.is_active_spec() && ov.current_state().auto_deactivate_at is Some
        && now >= ov.current_state().auto_deactivate_at->0 {
        OverrideStorage { state: Some(deactivated_state(ov.current_state(), now)), ..ov }
    } else {
        ov
    }
}

/// Why a new configuration is refused, if it is: the floor must not exceed
/// the base fee, the base fee the ceiling, the ceiling 10%, the emergency
/// cap the ceiling, and every congestion multiplier must be positive.
pub open spec fn config_error(c: FeeAdjustmentConfig) -> Option<FeeManagerError> {
    if c.min_fee_bps > c.base_fee_bps {
        Some(FeeManagerError::MinFeeExceedsBaseFee)
    } else if c.base_fee_bps > c.max_fee_bps {
        Some(FeeManagerError::BaseFeeExceedsMaxFee)
    } else if c.max_fee_bps > 1000 {
        Some(FeeManagerError::MaxFeeExceedsTenPercent)
    } else if c.emergency_fee_cap_bps > c.max_fee_bps {
        Some(FeeManagerError::EmergencyCapExceedsMaxFee)
    } else if c.very_low_multiplier == 0 || c.low_multiplier == 0 || c.moderate_multiplier == 0
        || c.high_multiplier == 0 || c.critical_multiplier == 0 {
        Some(FeeManagerError::ZeroMultiplier)
    } else {
        None
    }
}

/// Fee adjustment manager.
pub struct FeeAdjustmentManager;

impl FeeAdjustmentManager {
    /// Initialize the system: configuration, fees at the base fee, initial
    /// metrics, an inactive override and an initialization history entry.
    pub fn initialize(storage: &mut FeeManagerStorage, config: FeeAdjustmentConfig, initial_metrics: NetworkMetrics, now: u64)
        ensures
            final(storage).config == Some(config),
            final(storage).current_fee == Some(config.base_fee_bps),
            final(storage).previous_fee == Some(config.base_fee_bps),
            final(storage).network_metrics == Some(initial_metrics),
            final(storage).previous_metrics == old(storage).previous_metrics,
            final(storage).last_update == old(storage).last_update,
            final(storage).overrides.state == Some(crate::emergency::default_override_state()),
            final(storage).overrides.authorized_admins == old(storage).overrides.authorized_admins,
            final(storage).history.log() == appended_log(old(storage).history.log(), FeeHistoryEntry {
                timestamp: now,
                fee_bps: config.base_fee_bps,
                previous_fee_bps: config.base_fee_bps,
                congestion_level: congestion_level_of(initial_metrics),
                network_metrics: initial_metrics,
                adjustment_reason: AdjustmentReason::SystemInitialization,
                triggered_by: TriggeredBy::Init,
            }),
            final(storage).history.user_fees == old(storage).history.user_fees,
            final(storage).events@ == old(storage).events@,
    {
        storage.config = Some(config);
        storage.current_fee = Some(config.base_fee_bps);
        storage.previous_fee = Some(config.base_fee_bps);
        storage.network_metrics = Some(initial_metrics);
        EmergencyOverrideManager::initialize(&mut storage.overrides);
        let result = FeeAdjustmentResult {
            adjusted_fee_bps: config.base_fee_bps,
            base_fee_bps: config.base_fee_bps,
            congestion_multiplier: 100,
            trend_adjustment_bps: 0,
            congestion_level: NetworkCongestionMonitor::get_current_congestion_level(&initial_metrics),
            trend: CongestionTrend::Stable,
            emergency_override_active: false,
            calculated_at: now,
        };
        FeeHistoryManager::record_fee_adjustment(
            &mut storage.history,
            &result,
            config.base_fee_bps,
            &initial_metrics,
            TriggeredBy::Init,
            AdjustmentReason::SystemInitialization,
        );
    }

    /// Recompute the fee for the current network conditions: respects the
    /// cooldown, auto-triggers or auto-expires the emergency override, applies
    /// the fee calculation, records changes in the history and the event log,
    /// and remembers the metrics and the time.
    pub fn update_fees_for_congestion(storage: &mut FeeManagerStorage, current_metrics: NetworkMetrics, now: u64) -> (r: Result<FeeAdjustmentResult, FeeManagerError>)
        requires
            old(storage).last_update_time() <= now,
        ensures
            old(storage).config is None ==> r == Err::<FeeAdjustmentResult, FeeManagerError>(FeeManagerError::ConfigurationNotInitialized)
                && *final(storage) == *old(storage),
            old(storage).config is Some && now - old(storage).last_update_time() < old(storage).config->0.update_cooldown_seconds
                ==> r == Err::<FeeAdjustmentResult, FeeManagerError>(FeeManagerError::UpdateCooldownNotElapsed)
                && *final(storage) == *old(storage),
            old(storage).config is Some && now - old(storage).last_update_time() >= old(storage).config->0.update_cooldown_seconds ==> {
                let cfg = old(storage).config->0;
                let ov = overrides_after_update(old(storage).overrides, current_metrics, now);
                let res = fee_adjustment_result(cfg, current_metrics, old(storage).previous_metrics, now, ov.is_active_spec());
                let prev_fee = old(storage).fee_or(cfg.base_fee_bps);
                let triggered = !old(storage).overrides.is_active_spec() && auto_trigger_decision(current_metrics)
                    && auto_trigger_reason(current_metrics) is Some;
                let ev1 = if triggered {
                    old(storage).events@.push(FeeEvent::EmergencyFeeOverrideActivated {
                        fee_cap_bps: cfg.emergency_fee_cap_bps, automatic: true, timestamp: now })
                } else {
                    old(storage).events@
                };
                &&& r == Ok::<FeeAdjustmentResult, FeeManagerError>(res)
                &&& final(storage).overrides == ov
                &&& final(storage).config == old(storage).config
                &&& final(storage).previous_metrics == Some(current_metrics)
                &&& final(storage).network_metrics == Some(current_metrics)
                &&& final(storage).last_update == Some(now)
                &&& final(storage).history.user_fees == old(storage).history.user_fees
                &&& res.adjusted_fee_bps != prev_fee ==> {
                    &&& final(storage).current_fee == Some(res.adjusted_fee_bps)
                    &&& final(storage).previous_fee == Some(prev_fee)
                    &&& final(storage).history.log() == appended_log(old(storage).history.log(),
                        history_entry(res, prev_fee, current_metrics, TriggeredBy::Auto,
                            AdjustmentReason::AutomaticCongestionAdjustment))
                    &&& final(storage).events@ == ev1.push(FeeEvent::FeeAdjustmentApplied {
                        previous_fee_bps: prev_fee, new_fee_bps: res.adjusted_fee_bps, automatic: true,
                        congestion: Some(res.congestion_level), timestamp: now })
                }
                &&& res.adjusted_fee_bps == prev_fee ==> {
                    &&& final(storage).current_fee == old(storage).current_fee
                    &&& final(storage).previous_fee == old(storage).previous_fee
                    &&& final(storage).history.log() == old(storage).history.log()
                    &&& final(storage).events@ == ev1
                }
            },
    {
        let config = match storage.config {
            Some(c) => c,
            None => {
                return Err(FeeManagerError::ConfigurationNotInitialized);
            },
        };
        let last_update: u64 = match storage.last_update {
            Some(t) => t,
            None => 0,
        };
        if !DynamicFeeAdjustment::can_update_fee(last_update, now, config.update_cooldown_seconds) {
            return Err(FeeManagerError::UpdateCooldownNotElapsed);
        }
        let previous_metrics: Option<NetworkMetrics> = storage.previous_metrics;
        let emergency_override_active = EmergencyOverrideManager::is_active(&storage.overrides);
        let (should_auto_trigger, auto_trigger_reason) = EmergencyOverrideManager::should_auto_trigger(&current_metrics);
        let mut new_emergency_active = emergency_override_active;
        if should_auto_trigger && !emergency_override_active {
            match auto_trigger_reason {
                Some(reason) => {
                    let _ = EmergencyOverrideManager::activate_automatic(&mut storage.overrides, reason, &current_metrics, now);
                    new_emergency_active = true;
                    storage.events.push(FeeEvent::EmergencyFeeOverrideActivated {
                        fee_cap_bps: config.emergency_fee_cap_bps,
                        automatic: true,
                        timestamp: now,
                    });
                },
                None => {},
            }
        }
        if emergency_override_active {
            EmergencyOverrideManager::check_auto_deactivation(&mut storage.overrides, now);
            new_emergency_active = EmergencyOverrideManager::is_active(&storage.overrides);
        }
        let prev_ref: Option<&NetworkMetrics> = match &previous_metrics {
            Some(p) => Some(p),
            None => None,
        };
        let result = DynamicFeeAdjustment::calculate_adjusted_fee(
            &config,
            &current_metrics,
            prev_ref,
            now,
            new_emergency_active,
        );
        let previous_fee: u32 = match storage.current_fee {
            Some(f) => f,
            None => config.base_fee_bps,
        };
        if result.adjusted_fee_bps != previous_fee {
            storage.previous_fee = Some(previous_fee);
            storage.current_fee = Some(result.adjusted_fee_bps);
            FeeHistoryManager::record_fee_adjustment(
                &mut storage.history,
                &result,
                previous_fee,
                &current_metrics,
                TriggeredBy::Auto,
                AdjustmentReason::AutomaticCongestionAdjustment,
            );
            storage.events.push(FeeEvent::FeeAdjustmentApplied {
                previous_fee_bps: previous_fee,
                new_fee_bps: result.adjusted_fee_bps,
                automatic: true,
                congestion: Some(result.congestion_level),
                timestamp: now,
            });
        }
        storage.previous_metrics = Some(current_metrics);
        storage.network_metrics = Some(current_metrics);
        storage.last_update = Some(now);
        Ok(result)
    }

    /// Set the fee by hand (within the configured bounds and different from
    /// the current fee).
    pub fn update_fees_manual(storage: &mut FeeManagerStorage, admin: AccountId, new_fee_bps: u32, now: u64) -> (r: Result<(), FeeManagerError>)
        ensures
            old(storage).config is None ==> r == Err::<(), FeeManagerError>(FeeManagerError::ConfigurationNotInitialized),
            old(storage).config is Some && (new_fee_bps < old(storage).config->0.min_fee_bps
                || new_fee_bps > old(storage).config->0.max_fee_bps) ==> r == Err::<(), FeeManagerError>(FeeManagerError::FeeOutOfBounds),
            old(storage).config is Some && old(storage).config->0.min_fee_bps <= new_fee_bps <= old(storage).config->0.max_fee_bps
                && new_fee_bps == old(storage).fee_or(old(storage).config->0.base_fee_bps)
                ==> r == Err::<(), FeeManagerError>(FeeManagerError::FeeUnchanged),
            r is Err ==> *final(storage) == *old(storage),
            r is Ok ==> {
                let cfg = old(storage).config->0;
                let prev = old(storage).fee_or(cfg.base_fee_bps);
                let m = match old(storage).network_metrics { Some(m) => m, None => empty_metrics(now) };
                let res = FeeAdjustmentResult {
                    adjusted_fee_bps: new_fee_bps,
                    base_fee_bps: cfg.base_fee_bps,
                    congestion_multiplier: 100,
                    trend_adjustment_bps: 0,
                    congestion_level: congestion_level_of(m),
                    trend: CongestionTrend::Stable,
                    emergency_override_active: old(storage).overrides.is_active_spec(),
                    calculated_at: now,
                };
                &&& old(storage).config is Some
                &&& final(storage).current_fee == Some(new_fee_bps)
                &&& final(storage).previous_fee == Some(prev)
                &&& final(storage).history.log() == appended_log(old(storage).history.log(),
                    history_entry(res, prev, m, TriggeredBy::Admin(admin), AdjustmentReason::ManualAdminAdjustment))
                &&& final(storage).events@ == old(storage).events@.push(FeeEvent::FeeAdjustmentApplied {
                    previous_fee_bps: prev, new_fee_bps, automatic: false, congestion: None, timestamp: now })
                &&& final(storage).config == old(storage).config
                &&& final(storage).overrides == old(storage).overrides
                &&& final(storage).network_metrics == old(storage).network_metrics
                &&& final(storage).previous_metrics == old(storage).previous_metrics
                &&& final(storage).last_update == old(storage).last_update
                &&& final(storage).history.user_fees == old(storage).history.user_fees
            },
            old(storage).config is Some && old(storage).config->0.min_fee_bps <= new_fee_bps <= old(storage).config->0.max_fee_bps
                && new_fee_bps != old(storage).fee_or(old(storage).config->0.base_fee_bps) ==> r is Ok,
    {
        let config = match storage.config {
            Some(c) => c,
            None => {
                return Err(FeeManagerError::ConfigurationNotInitialized);
            },
        };
        if new_fee_bps < config.min_fee_bps || new_fee_bps > config.max_fee_bps {
            return Err(FeeManagerError::FeeOutOfBounds);
        }
        let previous_fee: u32 = match storage.current_fee {
            Some(f) => f,
            None => config.base_fee_bps,
        };
        if new_fee_bps == previous_fee {
            return Err(FeeManagerError::FeeUnchanged);
        }
        storage.previous_fee = Some(previous_fee);
        storage.current_fee = Some(new_fee_bps);
        let metrics = match storage.network_metrics {
            Some(m) => m,
            None => NetworkMetrics {
                txn_volume_tps: 0,
                avg_gas_price: 0,
                pending_txn_count: 0,
                ledger_close_time: now,
                capacity_utilization_percent: 0,
                timestamp: now,
                avg_confirmation_time_ms: 0,
            },
        };
        let result = FeeAdjustmentResult {
            adjusted_fee_bps: new_fee_bps,
            base_fee_bps: config.base_fee_bps,
            congestion_multiplier: 100,
            trend_adjustment_bps: 0,
            congestion_level: NetworkCongestionMonitor::get_current_congestion_level(&metrics),
            trend: CongestionTrend::Stable,
            emergency_override_active: EmergencyOverrideManager::is_active(&storage.overrides),
            calculated_at: now,
        };
        FeeHistoryManager::record_fee_adjustment(
            &mut storage.history,
            &result,
            previous_fee,
            &metrics,
            TriggeredBy::Admin(admin),
            AdjustmentReason::ManualAdminAdjustment,
        );
        storage.events.push(FeeEvent::FeeAdjustmentApplied {
            previous_fee_bps: previous_fee,
            new_fee_bps,
            automatic: false,
            congestion: None,
            timestamp: now,
        });
        Ok(())
    }

    /// Replace the configuration after validating it.
    pub fn update_config(storage: &mut FeeManagerStorage, admin: AccountId, new_config: FeeAdjustmentConfig, now: u64) -> (r: Result<(), FeeManagerError>)
        ensures
            config_error(new_config) is Some ==> r == Err::<(), FeeManagerError>(config_error(new_config)->0)
                && *final(storage) == *old(storage),
            config_error(new_config) is None ==> {
                &&& r is Ok
                &&& final(storage).config == Some(new_config)
                &&& final(storage).events@ == old(storage).events@.push(FeeEvent::FeeConfigurationUpdated { admin, timestamp: now })
                &&& final(storage).current_fee == old(storage).current_fee
                &&& final(storage).previous_fee == old(storage).previous_fee
                &&& final(storage).network_metrics == old(storage).network_metrics
                &&& final(storage).previous_metrics == old(storage).previous_metrics
                &&& final(storage).last_update == old(storage).last_update
                &&& final(storage).overrides == old(storage).overrides
                &&& final(storage).history == old(storage).history
            },
    {
        if new_config.min_fee_bps > new_config.base_fee_bps {
            return Err(FeeManagerError::MinFeeExceedsBaseFee);
        }
        if new_config.base_fee_bps > new_config.max_fee_bps {
            return Err(FeeManagerError::BaseFeeExceedsMaxFee);
        }
        if new_config.max_fee_bps > 1000 {
            return Err(FeeManagerError::MaxFeeExceedsTenPercent);
        }
        if new_config.emergency_fee_cap_bps > new_config.max_fee_bps {
            return Err(FeeManagerError::EmergencyCapExceedsMaxFee);
        }
        if new_config.very_low_multiplier == 0 || new_config.low_multiplier == 0 || new_config.moderate_multiplier == 0
            || new_config.high_multiplier == 0 || new_config.critical_multiplier == 0 {
            return Err(FeeManagerError::ZeroMultiplier);
        }
        storage.config = Some(new_config);
        storage.events.push(FeeEvent::FeeConfigurationUpdated { admin, timestamp: now });
        Ok(())
    }

    /// Current trading fee.
    pub fn get_current_fee(storage: &FeeManagerStorage) -> (r: Option<u32>)
        ensures
            r == storage.current_fee,
    {
        storage.current_fee
    }

    /// Previous trading fee.
    pub fn get_previous_fee(storage: &FeeManagerStorage) -> (r: Option<u32>)
        ensures
            r == storage.previous_fee,
    {
        storage.previous_fee
    }

    /// Fee adjustment configuration.
    pub fn get_config(storage: &FeeManagerStorage) -> (r: Result<FeeAdjustmentConfig, FeeManagerError>)
        ensures
            r == match storage.config {
                Some(c) => Ok::<FeeAdjustmentConfig, FeeManagerError>(c),
                None => Err(FeeManagerError::ConfigurationNotInitialized),
            },
    {
        match storage.config {
            Some(c) => Ok(c),
            None => Err(FeeManagerError::ConfigurationNotInitialized),
        }
    }

    /// Current network metrics.
    pub fn get_network_metrics(storage: &FeeManagerStorage) -> (r: Option<NetworkMetrics>)
        ensures
            r == storage.network_metrics,
    {
        storage.network_metrics
    }

    /// Complete fee adjustment information.
    pub fn get_fee_adjustment_info(storage: &FeeManagerStorage) -> (r: Result<FeeAdjustmentInfo, FeeManagerError>)
        ensures
            storage.config is None ==> r == Err::<FeeAdjustmentInfo, FeeManagerError>(FeeManagerError::ConfigurationNotInitialized),
            storage.config is Some && storage.current_fee is None ==> r == Err::<FeeAdjustmentInfo, FeeManagerError>(FeeManagerError::CurrentFeeNotSet),
            storage.config is Some && storage.current_fee is Some && storage.network_metrics is None
                ==> r == Err::<FeeAdjustmentInfo, FeeManagerError>(FeeManagerError::MetricsNotAvailable),
            storage.config is Some && storage.current_fee is Some && storage.network_metrics is Some ==> r == Ok::<FeeAdjustmentInfo, FeeManagerError>(FeeAdjustmentInfo {
                current_fee_bps: storage.current_fee->0,
                previous_fee_bps: match storage.previous_fee { Some(p) => p, None => storage.config->0.base_fee_bps },
                congestion_level: congestion_level_of(storage.network_metrics->0),
                config: storage.config->0,
                emergency_override_active: storage.overrides.is_active_spec(),
                network_metrics: storage.network_metrics->0,
                last_update: storage.last_update_time(),
            }),
    {
        let config = Self::get_config(storage)?;
        let current_fee = match storage.current_fee {
            Some(f) => f,
            None => {
                return Err(FeeManagerError::CurrentFeeNotSet);
            },
        };
        let previous_fee: u32 = match storage.previous_fee {
            Some(p) => p,
            None => config.base_fee_bps,
        };
        let metrics = match storage.network_metrics {
            Some(m) => m,
            None => {
                return Err(FeeManagerError::MetricsNotAvailable);
            },
        };
        let last_update: u64 = match storage.last_update {
            Some(t) => t,
            None => 0,
        };
        Ok(FeeAdjustmentInfo {
            current_fee_bps: current_fee,
            previous_fee_bps: previous_fee,
            congestion_level: NetworkCongestionMonitor::get_current_congestion_level(&metrics),
            config,
            emergency_override_active: EmergencyOverrideManager::is_active(&storage.overrides),
            network_metrics: metrics,
            last_update,
        })
    }

    /// Activate the emergency override by hand (authorized admins only).
    pub fn activate_emergency_override(storage: &mut FeeManagerStorage, admin: AccountId, fee_cap_bps: u32, now: u64) -> (r: Result<(), FeeManagerError>)
        ensures
            !old(storage).overrides.admins().contains(admin) ==> r == Err::<(), FeeManagerError>(FeeManagerError::Override(OverrideError::UnauthorizedAdmin)),
            old(storage).overrides.admins().contains(admin) && old(storage).overrides.is_active_spec()
                ==> r == Err::<(), FeeManagerError>(FeeManagerError::Override(OverrideError::AlreadyActive)),
            r is Err ==> *final(storage) == *old(storage),
            old(storage).overrides.admins().contains(admin) && !old(storage).overrides.is_active_spec() ==> {
                &&& r is Ok
                &&& final(storage).overrides.state == Some(activated_state(old(storage).overrides.current_state(),
                    fee_cap_bps, OverrideReason::ManualIntervention, Some(admin), now))
                &&& final(storage).overrides.authorized_admins == old(storage).overrides.authorized_admins
                &&& final(storage).events@ == old(storage).events@.push(FeeEvent::EmergencyFeeOverrideActivated {
                    fee_cap_bps, automatic: false, timestamp: now })
                &&& final(storage).current_fee == old(storage).current_fee
                &&& final(storage).config == old(storage).config
                &&& final(storage).history == old(storage).history
            },
    {
        match EmergencyOverrideManager::activate_manual(&mut storage.overrides, admin, fee_cap_bps, now) {
            Ok(()) => {},
            Err(e) => {
                return Err(FeeManagerError::Override(e));
            },
        }
        storage.events.push(FeeEvent::EmergencyFeeOverrideActivated {
            fee_cap_bps,
            automatic: false,
            timestamp: now,
        });
        Ok(())
    }

    /// Deactivate the emergency override (authorized admins only).
    pub fn deactivate_emergency_override(storage: &mut FeeManagerStorage, admin: AccountId, now: u64) -> (r: Result<(), FeeManagerError>)
        ensures
            !old(storage).overrides.is_active_spec() ==> r == Err::<(), FeeManagerError>(FeeManagerError::Override(OverrideError::NotActive)),
            old(storage).overrides.is_active_spec() && !old(storage).overrides.admins().contains(admin)
                ==> r == Err::<(), FeeManagerError>(FeeManagerError::Override(OverrideError::UnauthorizedAdmin)),
            r is Err ==> *final(storage) == *old(storage),
            old(storage).overrides.is_active_spec() && old(storage).overrides.admins().contains(admin) ==> {
                &&& r is Ok
                &&& final(storage).overrides.state == Some(deactivated_state(old(storage).overrides.current_state(), now))
                &&& final(storage).overrides.authorized_admins == old(storage).overrides.authorized_admins
                &&& final(storage).events@ == old(storage).events@.push(FeeEvent::EmergencyFeeOverrideDeactivated { timestamp: now })
                &&& final(storage).current_fee == old(storage).current_fee
                &&& final(storage).config == old(storage).config
                &&& final(storage).history == old(storage).history
            },
    {
        match EmergencyOverrideManager::deactivate(&mut storage.overrides, Some(admin), now) {
            Ok(()) => {},
            Err(e) => {
                return Err(FeeManagerError::Override(e));
            },
        }
        storage.events.push(FeeEvent::EmergencyFeeOverrideDeactivated { timestamp: now });
        Ok(())
    }

    /// Authorize an admin for emergency overrides.
    pub fn add_emergency_admin(storage: &mut FeeManagerStorage, admin: AccountId)
        ensures
            final(storage).overrides.admins().contains(admin),
            old(storage).overrides.admins().contains(admin) ==> final(storage).overrides == old(storage).overrides,
            !old(storage).overrides.admins().contains(admin) ==> final(storage).overrides.admins()
                == old(storage).overrides.admins().push(admin),
            final(storage).overrides.state == old(storage).overrides.state,
            final(storage).config == old(storage).config,
            final(storage).current_fee == old(storage).current_fee,
            final(storage).events@ == old(storage).events@,
    {
        EmergencyOverrideManager::add_authorized_admin(&mut storage.overrides, admin);
        proof {
            if !old(storage).overrides.admins().contains(admin) {
                assert(old(storage).overrides.admins().push(admin)[old(storage).overrides.admins().len() as int] == admin);
            }
        }
    }

    /// Revoke an admin's authorization for emergency overrides.
    pub fn remove_emergency_admin(storage: &mut FeeManagerStorage, admin: AccountId)
        ensures
            !final(storage).overrides.admins().contains(admin),
            final(storage).overrides.admins() == old(storage).overrides.admins().filter(|a: AccountId| a != admin),
            final(storage).overrides.state == old(storage).overrides.state,
            final(storage).config == old(storage).config,
            final(storage).current_fee == old(storage).current_fee,
            final(storage).events@ == old(storage).events@,
    {
        EmergencyOverrideManager::remove_authorized_admin(&mut storage.overrides, admin);
        proof {
            crate::emergency::lemma_admin_add_remove(old(storage).overrides.admins(), admin);
        }
    }

    /// Emergency override state.
    pub fn get_emergency_override_state(storage: &FeeManagerStorage) -> (s: EmergencyOverrideState)
        ensures
            s == storage.overrides.current_state(),
    {
        EmergencyOverrideManager::get_state(&storage.overrides)
    }
}

} // verus!
