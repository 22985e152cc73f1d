//! Emergency fee override: automatic detection of extreme congestion, manual
//! and automatic activation, timed deactivation, and the admin list.
use vstd::prelude::*;
use crate::congestion::{
    CongestionTrend, NetworkMetrics, NetworkCongestionMonitor, congestion_trend,
};

verus! {

/// Account identifier (stands for an on-chain address).
pub type AccountId = u64;

/// Emergency override status.
#[derive(Clone, Copy, Debug, PartialEq, Eq, Structural)]
pub enum OverrideStatus {
    Inactive,
    Active,
    Suspended,
}

/// Reason for activating the emergency override.
#[derive(Clone, Copy, Debug, PartialEq, Eq, Structural)]
pub enum OverrideReason {
    CriticalCongestion,
    ExtremeGasPrices,
    QueueOverflow,
    ManualIntervention,
    MultipleTriggers,
}

/// Emergency override state.
#[derive(Clone, Copy, Debug, PartialEq, Eq, Structural)]
pub struct EmergencyOverrideState {
    pub status: OverrideStatus,
    /// Fee cap in basis points during the override
    pub fee_cap_bps: u32,
    pub activated_at: u64,
    /// When the override deactivates by itself, if ever
    pub auto_deactivate_at: Option<u64>,
    pub reason: OverrideReason,
    /// Admin who activated it (manual activation only)
    pub activated_by: Option<AccountId>,
    /// Number of activations so far
    pub trigger_count: u32,
    pub last_status_change: u64,
}

/// Errors of the emergency override operations.
#[derive(Clone, Copy, Debug, PartialEq, Eq, Structural)]
pub enum OverrideError {
    UnauthorizedAdmin,
    AlreadyActive,
    NotActive,
}

/// Text of an override error.
pub open spec fn override_error_text(e: OverrideError) -> Seq<char> {
    match e {
        OverrideError::UnauthorizedAdmin => "Unauthorized admin"@,
        OverrideError::AlreadyActive => "Override already active"@,
        OverrideError::NotActive => "Override not active"@,
    }
}

impl OverrideError {
    /// Human-readable message of the error.
    pub fn message(&self) -> (r: &'static str)
        ensures
            r@ == override_error_text(*self),
    {
        match self {
            OverrideError::UnauthorizedAdmin => "Unauthorized admin",
            OverrideError::AlreadyActive => "Override already active",
            OverrideError::NotActive => "Override not active",
        }
    }
}

/// Persistent storage of the emergency override system: the state slot and
/// the admin-list slot, each possibly unset.
#[derive(Clone, Debug)]
pub struct OverrideStorage {
    pub state: Option<EmergencyOverrideState>,
    pub authorized_admins: Option<Vec<AccountId>>,
}

pub open spec fn default_override_state() -> EmergencyOverrideState {
    EmergencyOverrideState {
        status: OverrideStatus::Inactive,
        fee_cap_bps: 300,
        activated_at: 0,
        auto_deactivate_at: None,
        reason: OverrideReason::CriticalCongestion,
        activated_by: None,
        trigger_count: 0,
        last_status_change: 0,
    }
}

impl OverrideStorage {
    /// State as read: the stored one, or the default state when unset.
    pub open spec fn current_state(self) -> EmergencyOverrideState {
        match self.state {
            Some(s) => s,
            None => default_override_state(),
        }
    }

    /// Authorized admins as read: empty when unset.
    pub open spec fn admins(self) -> Seq<AccountId> {
        match self.authorized_admins {
            Some(v) => v@,
            None => Seq::empty(),
        }
    }

    pub open spec fn is_active_spec(self) -> bool {
        self.current_state().status == OverrideStatus::Active
    }

    /// Empty storage.
    pub fn new() -> (s: Self)
        ensures
            s.state is None,
            s.authorized_admins is None,
    {
        OverrideStorage { state: None, authorized_admins: None }
    }
}

/// Saturating addition of `u64`s.
pub open spec fn sat_add_u64(a: u64, b: u64) -> u64 {
    if a + b > u64::MAX { u64::MAX } else { (a + b) as u64 }
}

pub open spec fn sat_add_u32(a: u32, b: u32) -> u32 {
    if a + b > u32::MAX { u32::MAX } else { (a + b) as u32 }
}

/// Which of the three indicators exceed their critical thresholds.
pub open spec fn capacity_triggered(m: NetworkMetrics) -> bool {
    m.capacity_utilization_percent >= 95
}

pub open spec fn gas_triggered(m: NetworkMetrics) -> bool {
    m.avg_gas_price >= 5000
}

pub open spec fn queue_triggered(m: NetworkMetrics) -> bool {
    m.pending_txn_count >= 15000
}

pub open spec fn trigger_count(m: NetworkMetrics) -> int {
    (if capacity_triggered(m) { 1int } else { 0 }) + (if gas_triggered(m) { 1int } else { 0 }) + (
    if queue_triggered(m) { 1int } else { 0 })
}

/// Whether the override should trigger: two or more indicators, or one
/// indicator at an extreme value.
pub open spec fn auto_trigger_decision(m: NetworkMetrics) -> bool {
    trigger_count(m) >= 2 || (trigger_count(m) == 1 && (m.capacity_utilization_percent >= 98
        || m.avg_gas_price >= 7000 || m.pending_txn_count >= 20000))
}

/// The reason reported: MultipleTriggers for two or more indicators, else the
/// first indicator that fired (capacity, gas, queue), else none.
pub open spec fn auto_trigger_reason(m: NetworkMetrics) -> Option<OverrideReason> {
    if trigger_count(m) >= 2 {
        Some(OverrideReason::MultipleTriggers)
    } else if capacity_triggered(m) {
        Some(OverrideReason::CriticalCongestion)
    } else if gas_triggered(m) {
        Some(OverrideReason::ExtremeGasPrices)
    } else if queue_triggered(m) {
        Some(OverrideReason::QueueOverflow)
    } else {
        None
    }
}

/// Fee cap chosen for an automatic activation.
pub open spec fn automatic_fee_cap(reason: OverrideReason) -> u32 {
    match reason {
        OverrideReason::ExtremeGasPrices => 250,
        OverrideReason::QueueOverflow => 280,
        OverrideReason::MultipleTriggers => 200,
        OverrideReason::CriticalCongestion => 300,
        _ => 300,
    }
}

/// State after an activation.
pub open spec fn activated_state(prev: EmergencyOverrideState, fee_cap_bps: u32, reason: OverrideReason, by: Option<AccountId>, now: u64) -> EmergencyOverrideState {
    EmergencyOverrideState {
        status: OverrideStatus::Active,
        fee_cap_bps,
        activated_at: now,
        auto_deactivate_at: Some(sat_add_u64(now, 1800)),
        reason,
        activated_by: by,
        trigger_count: sat_add_u32(prev.trigger_count, 1),
        last_status_change: now,
    }
}

/// State after a deactivation.
pub open spec fn deactivated_state(prev: EmergencyOverrideState, now: u64) -> EmergencyOverrideState {
    EmergencyOverrideState {
        status: OverrideStatus::Inactive,
        auto_deactivate_at: None,
        last_status_change: now,
        ..prev
    }
}

/// Recovery score: how many of capacity < 70, gas < 2000, queue < 5000 hold.
pub open spec fn recovery_score(m: NetworkMetrics) -> int {
    (if m.capacity_utilization_percent < 70 { 1int } else { 0 }) + (if m.avg_gas_price < 2000 { 1int } else { 0 }) + (
    if m.pending_txn_count < 5000 { 1int } else { 0 })
}

/// Emergency override manager.
pub struct EmergencyOverrideManager;

impl EmergencyOverrideManager {
    /// Default emergency fee cap (basis points)
    pub const DEFAULT_EMERGENCY_FEE_CAP: u32 = 300;
    /// Auto-recovery timeout (seconds)
    pub const AUTO_RECOVERY_TIMEOUT: u64 = 1800;
    pub const CRITICAL_CAPACITY_THRESHOLD: u32 = 95;
    pub const CRITICAL_GAS_PRICE_THRESHOLD: u64 = 5000;
    pub const CRITICAL_PENDING_TXN_THRESHOLD: u64 = 15000;

    fn default_state() -> (s: EmergencyOverrideState)
        ensures
            s == default_override_state(),
    {
        EmergencyOverrideState {
            status: OverrideStatus::Inactive,
            fee_cap_bps: Self::DEFAULT_EMERGENCY_FEE_CAP,
            activated_at: 0,
            auto_deactivate_at: None,
            reason: OverrideReason::CriticalCongestion,
            activated_by: None,
            trigger_count: 0,
            last_status_change: 0,
        }
    }

    /// Initialize: store the default (inactive) state.
    pub fn initialize(storage: &mut OverrideStorage)
        ensures
            final(storage).state == Some(default_override_state()),
            final(storage).authorized_admins == old(storage).authorized_admins,
    {
        storage.state = Some(Self::default_state());
    }

    /// Current state (the default state when none is stored).
    pub fn get_state(storage: &OverrideStorage) -> (s: EmergencyOverrideState)
        ensures
            s == storage.current_state(),
    {
        match &storage.state {
            Some(s) => *s,
            None => Self::default_state(),
        }
    }

    /// Whether the override is active.
    pub fn is_active(storage: &OverrideStorage) -> (r: bool)
        ensures
            r == storage.is_active_spec(),
    {
        let state = Self::get_state(storage);
        state.status == OverrideStatus::Active
    }

    /// Detect whether the override should trigger, and why.
    pub fn should_auto_trigger(metrics: &NetworkMetrics) -> (r: (bool, Option<OverrideReason>))
        ensures
            r.0 == auto_trigger_decision(*metrics),
            r.1 == auto_trigger_reason(*metrics),
    {
        let mut count: u32 = 0;
        let mut primary_reason: Option<OverrideReason> = None;
        if metrics.capacity_utilization_percent >= Self::CRITICAL_CAPACITY_THRESHOLD {
            count = count + 1;
            if primary_reason.is_none() {
                primary_reason = Some(OverrideReason::CriticalCongestion);
            }
        }
        if metrics.avg_gas_price >= Self::CRITICAL_GAS_PRICE_THRESHOLD {
            count = count + 1;
            if primary_reason.is_none() {
                primary_reason = Some(OverrideReason::ExtremeGasPrices);
            }
        }
        if metrics.pending_txn_count >= Self::CRITICAL_PENDING_TXN_THRESHOLD {
            count = count + 1;
            if primary_reason.is_none() {
                primary_reason = Some(OverrideReason::QueueOverflow);
            }
        }
        let should_trigger = if count >= 2 {
            true
        } else if count == 1 {
            metrics.capacity_utilization_percent >= 98 || metrics.avg_gas_price >= 7000
                || metrics.pending_txn_count >= 20000
        } else {
            false
        };
        let reason = if count >= 2 {
            Some(OverrideReason::MultipleTriggers)
        } else {
            primary_reason
        };
        (should_trigger, reason)
    }

    /// Manually activate the override (authorized admins only).
    pub fn activate_manual(storage: &mut OverrideStorage, admin: AccountId, fee_cap_bps: u32, current_time: u64) -> (r: Result<(), OverrideError>)
        ensures
            !old(storage).admins().contains(admin) ==> r == Err::<(), OverrideError>(OverrideError::UnauthorizedAdmin),
            old(storage).admins().contains(admin) && old(storage).is_active_spec() ==> r == Err::<(), OverrideError>(OverrideError::AlreadyActive),
            r is Err ==> *final(storage) == *old(storage),
            old(storage).admins().contains(admin) && !old(storage).is_active_spec() ==> {
                &&& r is Ok
                &&& final(storage).state == Some(activated_state(old(storage).current_state(), fee_cap_bps,
                    OverrideReason::ManualIntervention, Some(admin), current_time))
                &&& final(storage).authorized_admins == old(storage).authorized_admins
            },
    {
        if !Self::is_authorized_admin(storage, admin) {
            return Err(OverrideError::UnauthorizedAdmin);
        }
        let mut state = Self::get_state(storage);
        if state.status == OverrideStatus::Active {
            return Err(OverrideError::AlreadyActive);
        }
        state.status = OverrideStatus::Active;
        state.fee_cap_bps = fee_cap_bps;
        state.activated_at = current_time;
        state.auto_deactivate_at = Some(current_time.saturating_add(Self::AUTO_RECOVERY_TIMEOUT));
        state.reason = OverrideReason::ManualIntervention;
        state.activated_by = Some(admin);
        state.trigger_count = state.trigger_count.saturating_add(1);
        state.last_status_change = current_time;
        storage.state = Some(state);
        Ok(())
    }

    /// Automatically activate the override with a cap chosen by the reason.
    pub fn activate_automatic(storage: &mut OverrideStorage, reason: OverrideReason, metrics: &NetworkMetrics, current_time: u64) -> (r: Result<(), OverrideError>)
        ensures
            old(storage).is_active_spec() ==> r == Err::<(), OverrideError>(OverrideError::AlreadyActive) && *final(storage) == *old(storage),
            !old(storage).is_active_spec() ==> {
                &&& r is Ok
                &&& final(storage).state == Some(activated_state(old(storage).current_state(),
                    automatic_fee_cap(reason), reason, None, current_time))
                &&& final(storage).authorized_admins == old(storage).authorized_admins
            },
    {
        let mut state = Self::get_state(storage);
        if state.status == OverrideStatus::Active {
            return Err(OverrideError::AlreadyActive);
        }
        let fee_cap: u32 = match reason {
            OverrideReason::ExtremeGasPrices => 250,
            OverrideReason::QueueOverflow => 280,
            OverrideReason::MultipleTriggers => 200,
            OverrideReason::CriticalCongestion => 300,
            _ => Self::DEFAULT_EMERGENCY_FEE_CAP,
        };
        state.status = OverrideStatus::Active;
        state.fee_cap_bps = fee_cap;
        state.activated_at = current_time;
        state.auto_deactivate_at = Some(current_time.saturating_add(Self::AUTO_RECOVERY_TIMEOUT));
        state.reason = reason;
        state.activated_by = None;
        state.trigger_count = state.trigger_count.saturating_add(1);
        state.last_status_change = current_time;
        storage.state = Some(state);
        Ok(())
    }

    /// Deactivate the override; a given admin must be authorized.
    pub fn deactivate(storage: &mut OverrideStorage, admin: Option<AccountId>, current_time: u64) -> (r: Result<(), OverrideError>)
        ensures
            !old(storage).is_active_spec() ==> r == Err::<(), OverrideError>(OverrideError::NotActive),
            old(storage).is_active_spec() && admin is Some && !old(storage).admins().contains(admin->0)
                ==> r == Err::<(), OverrideError>(OverrideError::UnauthorizedAdmin),
            r is Err ==> *final(storage) == *old(storage),
            old(storage).is_active_spec() && (admin is None || old(storage).admins().contains(admin->0)) ==> {
                &&& r is Ok
                &&& final(storage).state == Some(deactivated_state(old(storage).current_state(), current_time))
                &&& final(storage).authorized_admins == old(storage).authorized_admins
            },
    {
        let mut state = Self::get_state(storage);
        if state.status != OverrideStatus::Active {
            return Err(OverrideError::NotActive);
        }
        match admin {
            Some(a) => {
                if !Self::is_authorized_admin(storage, a) {
                    return Err(OverrideError::UnauthorizedAdmin);
                }
            },
            None => {},
        }
        state.status = OverrideStatus::Inactive;
        state.auto_deactivate_at = None;
        state.last_status_change = current_time;
        storage.state = Some(state);
        Ok(())
    }

    /// Deactivate the override when its timeout has passed; reports whether it
    /// did.
    pub fn check_auto_deactivation(storage: &mut OverrideStorage, current_time: u64) -> (r: bool)
        ensures
            r == (old(storage).is_active_spec() && old(storage).current_state().auto_deactivate_at is Some
                && current_time >= old(storage).current_state().auto_deactivate_at->0),
            r ==> final(storage).state == Some(deactivated_state(old(storage).current_state(), current_time)),
            !r ==> *final(storage) == *old(storage),
            final(storage).authorized_admins == old(storage).authorized_admins,
    {
        let mut state = Self::get_state(storage);
        if state.status != OverrideStatus::Active {
            return false;
        }
        match state.auto_deactivate_at {
            Some(deactivate_at) => {
                if current_time >= deactivate_at {
                    state.status = OverrideStatus::Inactive;
                    state.auto_deactivate_at = None;
                    state.last_status_change = current_time;
                    storage.state = Some(state);
                    return true;
                }
            },
            None => {},
        }
        false
    }

    /// The network is recovering when congestion is decreasing and at least
    /// two of capacity < 70, gas < 2000 and queue < 5000 hold.
    pub fn is_network_recovering(current_metrics: &NetworkMetrics, previous_metrics: Option<&NetworkMetrics>) -> (r: bool)
        ensures
            r == match previous_metrics {
                Some(p) => congestion_trend(*current_metrics, *p) == CongestionTrend::Decreasing
                    && recovery_score(*current_metrics) >= 2,
                None => false,
            },
    {
        match previous_metrics {
            Some(prev) => {
                let trend = NetworkCongestionMonitor::calculate_trend(current_metrics, prev);
                let mut score: u32 = 0;
                if current_metrics.capacity_utilization_percent < 70 {
                    score = score + 1;
                }
                if current_metrics.avg_gas_price < 2000 {
                    score = score + 1;
                }
                if current_metrics.pending_txn_count < 5000 {
                    score = score + 1;
                }
                trend == CongestionTrend::Decreasing && score >= 2
            },
            None => false,
        }
    }

    fn read_admins(storage: &OverrideStorage) -> (v: Vec<AccountId>)
        ensures
            v@ == storage.admins(),
    {
        match &storage.authorized_admins {
            Some(v) => v.clone(),
            None => Vec::new(),
        }
    }

    /// Authorize an admin; the list keeps each admin once.
    pub fn add_authorized_admin(storage: &mut OverrideStorage, admin: AccountId)
        ensures
            old(storage).admins().contains(admin) ==> *final(storage) == *old(storage),
            !old(storage).admins().contains(admin) ==> final(storage).authorized_admins is Some
                && final(storage).admins() == old(storage).admins().push(admin),
            final(storage).state == old(storage).state,
    {
        if Self::is_authorized_admin(storage, admin) {
            return;
        }
        let mut admins = Self::read_admins(storage);
        admins.push(admin);
        storage.authorized_admins = Some(admins);
    }

    /// Remove an admin: keeps every other admin, in order.
    pub fn remove_authorized_admin(storage: &mut OverrideStorage, admin: AccountId)
        ensures
            final(storage).authorized_admins is Some,
            final(storage).admins() == old(storage).admins().filter(|a: AccountId| a != admin),
            final(storage).state == old(storage).state,
    {
        let admins = Self::read_admins(storage);
        let mut kept: Vec<AccountId> = Vec::new();
        let ghost src: Seq<AccountId> = admins@;
        let mut i: usize = 0;
        while i < admins.len()
            invariant
                i <= admins.len(),
                admins@ == src,
                kept@ == src.take(i as int).filter(|a: AccountId| a != admin),
            decreases admins.len() - i,
        {
            let a = admins[i];
            proof {
                assert(src.take(i as int + 1).drop_last() == src.take(i as int));
                reveal_with_fuel(Seq::filter, 1);
            }
            if a != admin {
                kept.push(a);
            }
            i = i + 1;
        }
        proof {
            assert(src.take(src.len() as int) == src);
        }
        storage.authorized_admins = Some(kept);
    }

    /// Whether an admin is authorized.
    pub fn is_authorized_admin(storage: &OverrideStorage, admin: AccountId) -> (r: bool)
        ensures
            r == storage.admins().contains(admin),
    {
        let admins: &Vec<AccountId> = match &storage.authorized_admins {
            Some(v) => v,
            None => {
                return false;
            },
        };
        let mut i: usize = 0;
        while i < admins.len()
            invariant
                i <= admins.len(),
                storage.admins() == admins@,
                forall|j: int| 0 <= j < i ==> admins@[j] != admin,
            decreases admins.len() - i,
        {
            if admins[i] == admin {
                return true;
            }
            i = i + 1;
        }
        false
    }

    /// Seconds left before automatic deactivation, when active and not yet due.
    pub fn get_time_until_auto_deactivation(storage: &OverrideStorage, current_time: u64) -> (r: Option<u64>)
        ensures
            r == (if storage.is_active_spec() && storage.current_state().auto_deactivate_at is Some
                && storage.current_state().auto_deactivate_at->0 > current_time {
                Some((storage.current_state().auto_deactivate_at->0 - current_time) as u64)
            } else {
                None::<u64>
            }),
    {
        let state = Self::get_state(storage);
        if state.status != OverrideStatus::Active {
            return None;
        }
        match state.auto_deactivate_at {
            Some(at) => {
                if at > current_time {
                    Some(at - current_time)
                } else {
                    None
                }
            },
            None => None,
        }
    }
}

/// A successful activation leaves the override active; a successful
/// deactivation leaves it inactive; activation then immediate deactivation by
/// the system restores an inactive state and keeps the admin list.
pub proof fn lemma_activation_cycle(s: OverrideStorage, admin: AccountId, cap: u32, t1: u64, t2: u64)
    requires
        s.admins().contains(admin),
        !s.is_active_spec(),
    ensures
        ({
            let a = OverrideStorage { state: Some(activated_state(s.current_state(), cap,
                OverrideReason::ManualIntervention, Some(admin), t1)), ..s };
            &&& a.is_active_spec()
            &&& a.current_state().auto_deactivate_at == Some(sat_add_u64(t1, 1800))
            &&& {
                let d = OverrideStorage { state: Some(deactivated_state(a.current_state(), t2)), ..a };
                &&& !d.is_active_spec()
                &&& d.admins() == s.admins()
                &&& d.current_state().trigger_count == sat_add_u32(s.current_state().trigger_count, 1)
            }
        }),
{
}

/// Removing an admin revokes it; adding one grants it.
pub proof fn lemma_admin_add_remove(admins: Seq<AccountId>, admin: AccountId)
    ensures
        admins.push(admin).contains(admin),
        !admins.filter(|a: AccountId| a != admin).contains(admin),
{
    broadcast use vstd::seq_lib::group_filter_ensures;
    assert(admins.push(admin)[admins.len() as int] == admin);
    let f = admins.filter(|a: AccountId| a != admin);
    assert forall|k: int| 0 <= k < f.len() implies #[trigger] f[k] != admin by {
        assert((|a: AccountId| a != admin)(f[k]));
    }
}

} // verus!
