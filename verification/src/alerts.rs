//! Price, portfolio and market alerts: users register alerts, trading code
//! checks them against current figures, and alerts fire, expire or are
//! cleaned up. An alert with expiry 0 never expires and stays active after
//! it fires; any other alert is deactivated when it fires or expires.
use vstd::prelude::*;
use crate::emergency::AccountId;
use crate::liquidity_pool::TokenId;
use crate::analytics::{abs_int, trunc_div};

verus! {

/// Direction in which a price alert fires.
#[derive(Clone, Copy, Debug, PartialEq, Eq, Structural)]
pub enum PriceDirection {
    Above,
    Below,
}

/// Portfolio event that fires an alert.
#[derive(Clone, Copy, Debug, PartialEq, Eq, Structural)]
pub enum PortfolioTrigger {
    /// The portfolio value changed by at least the threshold (basis points).
    ValueChangeBps,
    /// The collateral ratio (basis points) is at or below the threshold.
    LiquidationRisk,
}

/// Market-level signals.
#[derive(Clone, Copy, Debug, PartialEq, Eq, Structural)]
pub enum MarketSignal {
    TrendReversal,
    VolatilitySpike,
}

/// How the owner is notified.
#[derive(Clone, Copy, Debug, PartialEq, Eq, Structural)]
pub enum NotificationMethod {
    Event,
    Webhook,
}

/// What an alert watches.
#[derive(Clone, Copy, Debug, PartialEq, Eq, Structural)]
pub enum AlertKind {
    Price { token: TokenId, target_price: i128, direction: PriceDirection },
    Portfolio { trigger_type: PortfolioTrigger, threshold_bps: i128 },
    Market { market_id: u64, signal_type: MarketSignal },
}

/// One alert.
#[derive(Clone, Copy, Debug, PartialEq, Eq, Structural)]
pub struct Alert {
    pub id: u64,
    pub owner: AccountId,
    pub kind: AlertKind,
    pub notification_method: NotificationMethod,
    /// Time from which the alert is expired; 0 for never
    pub expires_at: u64,
    pub active: bool,
    /// Time it last fired; 0 if never
    pub last_triggered_at: u64,
}

/// All alerts, in creation order, and the last id given out.
pub struct AlertRegistry {
    pub counter: u64,
    pub alerts: Vec<Alert>,
}

/// Whether an alert is expired at `now`.
pub open spec fn expired(a: Alert, now: u64) -> bool {
    a.expires_at != 0 && a.expires_at <= now
}

/// Whether an alert is active and not expired at `now`.
pub open spec fn live(a: Alert, now: u64) -> bool {
    a.active && !expired(a, now)
}

/// An alert after a check at `now` in which its condition is `fires`: an
/// inactive alert is left alone; an expired one is deactivated; one that
/// fires records the time and stays active only if it never expires.
pub open spec fn checked(a: Alert, now: u64, fires: bool) -> Alert {
    if !a.active {
        a
    } else if expired(a, now) {
        Alert { active: false, ..a }
    } else if fires {
        Alert { last_triggered_at: now, active: a.expires_at == 0, ..a }
    } else {
        a
    }
}

/// Whether an alert fires in a check at `now` with condition `fires`.
pub open spec fn fires_now(a: Alert, now: u64, fires: bool) -> bool {
    live(a, now) && fires
}

/// All alerts after a check: those in `scope` are checked with their
/// condition, the rest are unchanged.
pub open spec fn check_all(
    s: Seq<Alert>,
    now: u64,
    scope: spec_fn(Alert) -> bool,
    fires: spec_fn(Alert) -> bool,
) -> Seq<Alert> {
    s.map_values(|a: Alert| if scope(a) { checked(a, now, fires(a)) } else { a })
}

/// The alerts that fire in a check, as they are after it, in order.
pub open spec fn fired_all(
    s: Seq<Alert>,
    now: u64,
    scope: spec_fn(Alert) -> bool,
    fires: spec_fn(Alert) -> bool,
) -> Seq<Alert>
    decreases s.len(),
{
    if s.len() == 0 {
        Seq::empty()
    } else {
        let rest = fired_all(s.drop_last(), now, scope, fires);
        let a = s.last();
        if scope(a) && fires_now(a, now, fires(a)) {
            rest.push(checked(a, now, true))
        } else {
            rest
        }
    }
}

/// A price alert on `token` whose target is reached by `price`.
pub open spec fn price_fires(a: Alert, token: TokenId, price: i128) -> bool {
    match a.kind {
        AlertKind::Price { token: t, target_price, direction } => t == token && match direction {
            PriceDirection::Above => price >= target_price,
            PriceDirection::Below => price <= target_price,
        },
        _ => false,
    }
}

/// A portfolio alert whose trigger is met: the change from `reference` to
/// `current` in basis points (rounded toward zero) reaches the threshold,
/// or the collateral ratio `current` is at or below it.
pub open spec fn portfolio_fires(a: Alert, current: i128, reference: i128) -> bool {
    match a.kind {
        AlertKind::Portfolio { trigger_type, threshold_bps } => match trigger_type {
            PortfolioTrigger::ValueChangeBps => reference != 0 && trunc_div(
                abs_int(current - reference) * 10000,
                reference as int,
            ) >= threshold_bps,
            PortfolioTrigger::LiquidationRisk => current <= threshold_bps,
        },
        _ => false,
    }
}

/// A market alert on `market_id` for `signal`.
pub open spec fn market_fires(a: Alert, market_id: u64, signal: MarketSignal) -> bool {
    match a.kind {
        AlertKind::Market { market_id: m, signal_type } => m == market_id && signal_type == signal,
        _ => false,
    }
}

/// The live alerts of a user at `now`, in creation order.
pub open spec fn active_of(s: Seq<Alert>, user: AccountId, now: u64) -> Seq<Alert>
    decreases s.len(),
{
    if s.len() == 0 {
        Seq::empty()
    } else {
        let rest = active_of(s.drop_last(), user, now);
        if s.last().owner == user && live(s.last(), now) {
            rest.push(s.last())
        } else {
            rest
        }
    }
}

/// Alerts after a user's cleanup: the user's alerts that are not live are gone.
pub open spec fn cleaned(s: Seq<Alert>, user: AccountId, now: u64) -> Seq<Alert>
    decreases s.len(),
{
    if s.len() == 0 {
        Seq::empty()
    } else {
        let rest = cleaned(s.drop_last(), user, now);
        if s.last().owner != user || live(s.last(), now) {
            rest.push(s.last())
        } else {
            rest
        }
    }
}

/// Alerts after a subscription: the user's alerts with a listed id are
/// active with the given notification method.
pub open spec fn subscribed(s: Seq<Alert>, user: AccountId, ids: Seq<u64>, method: NotificationMethod) -> Seq<Alert> {
    s.map_values(
        |a: Alert|
            if a.owner == user && ids.contains(a.id) {
                Alert { active: true, notification_method: method, ..a }
            } else {
                a
            },
    )
}

/// Id given to the next alert: one past the counter, saturating.
pub open spec fn next_id_of(counter: u64) -> u64 {
    if counter == u64::MAX { u64::MAX } else { (counter + 1) as u64 }
}

impl AlertRegistry {
    /// A registry with no alerts.
    pub fn new() -> (r: Self)
        ensures
            r.counter == 0,
            r.alerts@.len() == 0,
    {
        AlertRegistry { counter: 0, alerts: Vec::new() }
    }
}

/// Advances the id counter (saturating) and returns the new id.
fn next_id(registry: &mut AlertRegistry) -> (id: u64)
    ensures
        id == next_id_of(old(registry).counter),
        final(registry).counter == id,
        final(registry).alerts@ == old(registry).alerts@,
{
    let id: u64 = if registry.counter == u64::MAX { u64::MAX } else { registry.counter + 1 };
    registry.counter = id;
    id
}

/// Appends an alert.
fn push_alert(registry: &mut AlertRegistry, alert: Alert)
    ensures
        final(registry).counter == old(registry).counter,
        final(registry).alerts@ == old(registry).alerts@.push(alert),
{
    registry.alerts.push(alert);
}

/// Adds an alert with the next id, active and never fired; returns the id.
fn push_new_alert(
    registry: &mut AlertRegistry,
    owner: AccountId,
    kind: AlertKind,
    expires_at: u64,
    notification_method: NotificationMethod,
) -> (id: u64)
    ensures
        id == next_id_of(old(registry).counter),
        final(registry).counter == id,
        final(registry).alerts@ == old(registry).alerts@.push(
            Alert { id, owner, kind, notification_method, expires_at, active: true, last_triggered_at: 0 },
        ),
{
    let id = next_id(registry);
    push_alert(registry, Alert { id, owner, kind, notification_method, expires_at, active: true, last_triggered_at: 0 });
    id
}

/// Creates a price alert; returns its id.
pub fn create_price_alert(
    registry: &mut AlertRegistry,
    owner: AccountId,
    token: TokenId,
    target_price: i128,
    direction: PriceDirection,
    expires_at: u64,
    notification_method: NotificationMethod,
) -> (id: u64)
    ensures
        id == next_id_of(old(registry).counter),
        final(registry).counter == id,
        final(registry).alerts@ == old(registry).alerts@.push(
            Alert {
                id,
                owner,
                kind: AlertKind::Price { token, target_price, direction },
                notification_method,
                expires_at,
                active: true,
                last_triggered_at: 0,
            },
        ),
{
    push_new_alert(registry, owner, AlertKind::Price { token, target_price, direction }, expires_at, notification_method)
}

/// Creates a portfolio alert; returns its id.
pub fn create_portfolio_alert(
    registry: &mut AlertRegistry,
    owner: AccountId,
    trigger_type: PortfolioTrigger,
    threshold_bps: i128,
    expires_at: u64,
    notification_method: NotificationMethod,
) -> (id: u64)
    ensures
        id == next_id_of(old(registry).counter),
        final(registry).counter == id,
        final(registry).alerts@ == old(registry).alerts@.push(
            Alert {
                id,
                owner,
                kind: AlertKind::Portfolio { trigger_type, threshold_bps },
                notification_method,
                expires_at,
                active: true,
                last_triggered_at: 0,
            },
        ),
{
    push_new_alert(registry, owner, AlertKind::Portfolio { trigger_type, threshold_bps }, expires_at, notification_method)
}

/// Creates a market alert; returns its id.
pub fn create_market_alert(
    registry: &mut AlertRegistry,
    owner: AccountId,
    market_id: u64,
    signal_type: MarketSignal,
    expires_at: u64,
    notification_method: NotificationMethod,
) -> (id: u64)
    ensures
        id == next_id_of(old(registry).counter),
        final(registry).counter == id,
        final(registry).alerts@ == old(registry).alerts@.push(
            Alert {
                id,
                owner,
                kind: AlertKind::Market { market_id, signal_type },
                notification_method,
                expires_at,
                active: true,
                last_triggered_at: 0,
            },
        ),
{
    push_new_alert(registry, owner, AlertKind::Market { market_id, signal_type }, expires_at, notification_method)
}

/// Whether a list of ids holds `id`.
fn contains_id(ids: &Vec<u64>, id: u64) -> (r: bool)
    ensures
        r == ids@.contains(id),
{
    let mut j: usize = 0;
    while j < ids.len()
        invariant
            j <= ids.len(),
            forall|k: int| 0 <= k < j ==> ids@[k] != id,
        decreases ids.len() - j,
    {
        if ids[j] == id {
            assert(ids@[j as int] == id);
            return true;
        }
        j = j + 1;
    }
    false
}

/// Activates the user's alerts with a listed id and sets their
/// notification method.
pub fn subscribe_alerts(
    registry: &mut AlertRegistry,
    user: AccountId,
    alert_ids: &Vec<u64>,
    notification_method: NotificationMethod,
)
    ensures
        final(registry).counter == old(registry).counter,
        final(registry).alerts@ == subscribed(old(registry).alerts@, user, alert_ids@, notification_method),
{
    let ghost s0 = registry.alerts@;
    let mut out: Vec<Alert> = Vec::new();
    let mut i: usize = 0;
    while i < registry.alerts.len()
        invariant
            registry.alerts@ == s0,
            i <= s0.len(),
            out@ == subscribed(s0.take(i as int), user, alert_ids@, notification_method),
        decreases s0.len() - i,
    {
        let a = registry.alerts[i];
        let b = if a.owner == user && contains_id(alert_ids, a.id) {
            Alert { active: true, notification_method, ..a }
        } else {
            a
        };
        out.push(b);
        proof {
            assert(out@ =~= subscribed(s0.take(i as int + 1), user, alert_ids@, notification_method));
        }
        i = i + 1;
    }
    proof {
        assert(s0.take(s0.len() as int) == s0);
    }
    registry.alerts = out;
}

/// The user's live alerts at `now`, in creation order.
pub fn get_active_alerts(registry: &AlertRegistry, user: AccountId, now: u64) -> (r: Vec<Alert>)
    ensures
        r@ == active_of(registry.alerts@, user, now),
{
    let mut out: Vec<Alert> = Vec::new();
    let mut i: usize = 0;
    while i < registry.alerts.len()
        invariant
            i <= registry.alerts.len(),
            out@ == active_of(registry.alerts@.take(i as int), user, now),
        decreases registry.alerts.len() - i,
    {
        proof {
            assert(registry.alerts@.take(i as int + 1).drop_last() == registry.alerts@.take(i as int));
        }
        let a = registry.alerts[i];
        let not_expired = a.expires_at == 0 || a.expires_at > now;
        if a.owner == user && a.active && not_expired {
            out.push(a);
        }
        i = i + 1;
    }
    proof {
        assert(registry.alerts@.take(registry.alerts@.len() as int) == registry.alerts@);
    }
    out
}

/// One alert checked at `now`: the alert after the check and whether it fired.
fn check_one(a: Alert, now: u64, fires: bool) -> (r: (Alert, bool))
    ensures
        r.0 == checked(a, now, fires),
        r.1 == fires_now(a, now, fires),
{
    if !a.active {
        (a, false)
    } else if a.expires_at != 0 && a.expires_at <= now {
        (Alert { active: false, ..a }, false)
    } else if fires {
        (Alert { last_triggered_at: now, active: a.expires_at == 0, ..a }, true)
    } else {
        (a, false)
    }
}

/// Whether a price alert is reached by `price` on `token`.
fn price_condition(a: &Alert, token: TokenId, price: i128) -> (r: bool)
    ensures
        r == price_fires(*a, token, price),
{
    match a.kind {
        AlertKind::Price { token: t, target_price, direction } => t == token && match direction {
            PriceDirection::Above => price >= target_price,
            PriceDirection::Below => price <= target_price,
        },
        _ => false,
    }
}

/// Whether a market alert matches.
fn market_condition(a: &Alert, market_id: u64, signal: MarketSignal) -> (r: bool)
    ensures
        r == market_fires(*a, market_id, signal),
{
    match a.kind {
        AlertKind::Market { market_id: m, signal_type } => m == market_id && signal_type == signal,
        _ => false,
    }
}

/// A portfolio alert on a change of value.
pub open spec fn is_value_change(a: Alert) -> bool {
    match a.kind {
        AlertKind::Portfolio { trigger_type: PortfolioTrigger::ValueChangeBps, .. } => true,
        _ => false,
    }
}

/// The change between two portfolio values can be taken in basis points
/// for every live value-change alert of the user.
pub open spec fn portfolio_change_fits(s: Seq<Alert>, user: AccountId, now: u64, current: i128, reference: i128) -> bool {
    forall|k: int|
        0 <= k < s.len() && (#[trigger] s[k]).owner == user && live(s[k], now) && reference != 0
            && is_value_change(s[k]) ==> abs_int(current - reference) * 10000 <= i128::MAX
}

/// Whether a portfolio alert's trigger is met.
fn portfolio_condition(a: &Alert, current: i128, reference: i128) -> (r: bool)
    requires
        reference != 0 && is_value_change(*a) ==> abs_int(current - reference) * 10000 <= i128::MAX,
    ensures
        r == portfolio_fires(*a, current, reference),
{
    match a.kind {
        AlertKind::Portfolio { trigger_type, threshold_bps } => match trigger_type {
            PortfolioTrigger::ValueChangeBps => {
                if reference == 0 {
                    false
                } else {
                    let diff: i128 = current - reference;
                    let mag: i128 = if diff < 0 { -diff } else { diff };
                    let num: i128 = mag * 10_000;
                    let change = crate::analytics::div_trunc(num, reference);
                    change >= threshold_bps
                }
            },
            PortfolioTrigger::LiquidationRisk => current <= threshold_bps,
        },
        _ => false,
    }
}

/// Checks every price alert on `token` against `current_price` at `now`:
/// live alerts whose target is reached fire; expired alerts of any kind are
/// deactivated. Returns the alerts that fired, as they are after the check.
pub fn check_price_alerts(registry: &mut AlertRegistry, token: TokenId, current_price: i128, now: u64) -> (fired: Vec<Alert>)
    ensures
        final(registry).counter == old(registry).counter,
        final(registry).alerts@ == check_all(old(registry).alerts@, now, |a: Alert| true, |a: Alert| price_fires(a, token, current_price)),
        fired@ == fired_all(old(registry).alerts@, now, |a: Alert| true, |a: Alert| price_fires(a, token, current_price)),
        forall|j: int| 0 <= j < fired@.len() ==> ((#[trigger] fired@[j]).kind matches AlertKind::Price { token: t, target_price, direction }
            && t == token && (direction == PriceDirection::Above ==> current_price >= target_price)
            && (direction == PriceDirection::Below ==> current_price <= target_price)),
        forall|i: int| 0 <= i < old(registry).alerts@.len() && live(old(registry).alerts@[i], now)
            && !(old(registry).alerts@[i].kind matches AlertKind::Price { token: t, target_price, direction }
            && t == token && (direction == PriceDirection::Above ==> current_price >= target_price)
            && (direction == PriceDirection::Below ==> current_price <= target_price))
            ==> #[trigger] final(registry).alerts@[i] == old(registry).alerts@[i],
        forall|i: int| 0 <= i < old(registry).alerts@.len() && live(old(registry).alerts@[i], now)
            && (old(registry).alerts@[i].kind matches AlertKind::Price { token: t, target_price, direction }
            && t == token && (direction == PriceDirection::Above ==> current_price >= target_price)
            && (direction == PriceDirection::Below ==> current_price <= target_price))
            ==> #[trigger] final(registry).alerts@[i] == (Alert { last_triggered_at: now,
                active: old(registry).alerts@[i].expires_at == 0, ..old(registry).alerts@[i] }),
{
    let ghost s0 = registry.alerts@;
    let ghost scope = |a: Alert| true;
    let ghost fires = |a: Alert| price_fires(a, token, current_price);
    let mut out: Vec<Alert> = Vec::new();
    let mut fired: Vec<Alert> = Vec::new();
    let mut i: usize = 0;
    while i < registry.alerts.len()
        invariant
            registry.alerts@ == s0,
            i <= s0.len(),
            scope == (|a: Alert| true),
            fires == (|a: Alert| price_fires(a, token, current_price)),
            out@ == check_all(s0.take(i as int), now, scope, fires),
            fired@ == fired_all(s0.take(i as int), now, scope, fires),
        decreases s0.len() - i,
    {
        proof {
            assert(s0.take(i as int + 1).drop_last() == s0.take(i as int));
        }
        let a = registry.alerts[i];
        proof {
            assert(s0.take(i as int + 1).last() == a);
            assert(fires(a) == price_fires(a, token, current_price));
        }
        let f = price_condition(&a, token, current_price);
        let (b, hit) = check_one(a, now, f);
        out.push(b);
        if hit {
            fired.push(b);
        }
        proof {
            assert(out@ =~= check_all(s0.take(i as int + 1), now, scope, fires));
        }
        i = i + 1;
    }
    proof {
        assert(s0.take(s0.len() as int) == s0);
        lemma_price_alerts_fire_only_when_reached(s0, token, current_price, now, scope, fires);
    }
    registry.alerts = out;
    fired
}

/// Checks the user's portfolio alerts at `now` against the current value
/// (or collateral ratio) and a reference value; other users' alerts are
/// untouched. Returns the alerts that fired, as they are after the check.
pub fn check_portfolio_alerts(
    registry: &mut AlertRegistry,
    user: AccountId,
    current_value: i128,
    reference_value: i128,
    now: u64,
) -> (fired: Vec<Alert>)
    requires
        portfolio_change_fits(old(registry).alerts@, user, now, current_value, reference_value),
    ensures
        final(registry).counter == old(registry).counter,
        final(registry).alerts@ == check_all(
            old(registry).alerts@,
            now,
            |a: Alert| a.owner == user,
            |a: Alert| portfolio_fires(a, current_value, reference_value),
        ),
        fired@ == fired_all(
            old(registry).alerts@,
            now,
            |a: Alert| a.owner == user,
            |a: Alert| portfolio_fires(a, current_value, reference_value),
        ),
{
    let ghost s0 = registry.alerts@;
    let ghost scope = |a: Alert| a.owner == user;
    let ghost fires = |a: Alert| portfolio_fires(a, current_value, reference_value);
    let mut out: Vec<Alert> = Vec::new();
    let mut fired: Vec<Alert> = Vec::new();
    let mut i: usize = 0;
    while i < registry.alerts.len()
        invariant
            registry.alerts@ == s0,
            i <= s0.len(),
            portfolio_change_fits(s0, user, now, current_value, reference_value),
            scope == (|a: Alert| a.owner == user),
            fires == (|a: Alert| portfolio_fires(a, current_value, reference_value)),
            out@ == check_all(s0.take(i as int), now, scope, fires),
            fired@ == fired_all(s0.take(i as int), now, scope, fires),
        decreases s0.len() - i,
    {
        proof {
            assert(s0.take(i as int + 1).drop_last() == s0.take(i as int));
        }
        let a = registry.alerts[i];
        proof {
            assert(s0.take(i as int + 1).last() == a);
            assert(fires(a) == portfolio_fires(a, current_value, reference_value));
            assert(scope(a) == (a.owner == user));
        }
        if a.owner == user {
            let f = if a.active && !(a.expires_at != 0 && a.expires_at <= now) {
                proof {
                    assert(s0[i as int] == a);
                }
                portfolio_condition(&a, current_value, reference_value)
            } else {
                false
            };
            let (b, hit) = check_one(a, now, f);
            proof {
                if !(a.active && !(a.expires_at != 0 && a.expires_at <= now)) {
                    assert(checked(a, now, false) == checked(a, now, fires(a)));
                }
                assert(b == checked(a, now, fires(a)));
                assert(hit == fires_now(a, now, fires(a)));
            }
            out.push(b);
            if hit {
                fired.push(b);
            }
        } else {
            out.push(a);
        }
        proof {
            assert(out@ =~= check_all(s0.take(i as int + 1), now, scope, fires));
        }
        i = i + 1;
    }
    proof {
        assert(s0.take(s0.len() as int) == s0);
    }
    registry.alerts = out;
    fired
}

/// Checks every market alert for `market_id` and `signal_type` at `now`:
/// live matching alerts fire; expired alerts of any kind are deactivated.
/// Returns the alerts that fired, as they are after the check.
pub fn check_market_alerts(registry: &mut AlertRegistry, market_id: u64, signal_type: MarketSignal, now: u64) -> (fired: Vec<Alert>)
    ensures
        final(registry).counter == old(registry).counter,
        final(registry).alerts@ == check_all(old(registry).alerts@, now, |a: Alert| true, |a: Alert| market_fires(a, market_id, signal_type)),
        fired@ == fired_all(old(registry).alerts@, now, |a: Alert| true, |a: Alert| market_fires(a, market_id, signal_type)),
{
    let ghost s0 = registry.alerts@;
    let ghost scope = |a: Alert| true;
    let ghost fires = |a: Alert| market_fires(a, market_id, signal_type);
    let mut out: Vec<Alert> = Vec::new();
    let mut fired: Vec<Alert> = Vec::new();
    let mut i: usize = 0;
    while i < registry.alerts.len()
        invariant
            registry.alerts@ == s0,
            i <= s0.len(),
            scope == (|a: Alert| true),
            fires == (|a: Alert| market_fires(a, market_id, signal_type)),
            out@ == check_all(s0.take(i as int), now, scope, fires),
            fired@ == fired_all(s0.take(i as int), now, scope, fires),
        decreases s0.len() - i,
    {
        proof {
            assert(s0.take(i as int + 1).drop_last() == s0.take(i as int));
        }
        let a = registry.alerts[i];
        proof {
            assert(s0.take(i as int + 1).last() == a);
            assert(fires(a) == market_fires(a, market_id, signal_type));
        }
        let f = market_condition(&a, market_id, signal_type);
        let (b, hit) = check_one(a, now, f);
        out.push(b);
        if hit {
            fired.push(b);
        }
        proof {
            assert(out@ =~= check_all(s0.take(i as int + 1), now, scope, fires));
        }
        i = i + 1;
    }
    proof {
        assert(s0.take(s0.len() as int) == s0);
    }
    registry.alerts = out;
    fired
}

/// Removes the user's alerts that are inactive or expired at `now`.
pub fn cleanup_alerts(registry: &mut AlertRegistry, user: AccountId, now: u64)
    ensures
        final(registry).counter == old(registry).counter,
        final(registry).alerts@ == cleaned(old(registry).alerts@, user, now),
{
    let ghost s0 = registry.alerts@;
    let mut out: Vec<Alert> = Vec::new();
    let mut i: usize = 0;
    while i < registry.alerts.len()
        invariant
            registry.alerts@ == s0,
            i <= s0.len(),
            out@ == cleaned(s0.take(i as int), user, now),
        decreases s0.len() - i,
    {
        proof {
            assert(s0.take(i as int + 1).drop_last() == s0.take(i as int));
        }
        let a = registry.alerts[i];
        let not_expired = a.expires_at == 0 || a.expires_at > now;
        if a.owner != user || (a.active && not_expired) {
            out.push(a);
        }
        i = i + 1;
    }
    proof {
        assert(s0.take(s0.len() as int) == s0);
    }
    registry.alerts = out;
}

/// An alert that never expires is still active after any check.
pub proof fn lemma_persistent_alert_stays_active(a: Alert, now: u64, fires: bool)
    requires
        a.active,
        a.expires_at == 0,
    ensures
        checked(a, now, fires).active,
{
}

/// A one-shot alert (with an expiry) that fires is no longer active.
pub proof fn lemma_one_shot_alert_deactivates(a: Alert, now: u64)
    requires
        a.expires_at != 0,
        fires_now(a, now, true),
    ensures
        !checked(a, now, true).active,
        checked(a, now, true).last_triggered_at == now,
{
}

/// Cleanup never changes any user's live alerts at the same time.
pub proof fn lemma_cleanup_keeps_active(s: Seq<Alert>, user: AccountId, other: AccountId, now: u64)
    ensures
        active_of(cleaned(s, user, now), other, now) == active_of(s, other, now),
    decreases s.len(),
{
    if s.len() > 0 {
        lemma_cleanup_keeps_active(s.drop_last(), user, other, now);
        let c = cleaned(s.drop_last(), user, now);
        if s.last().owner != user || live(s.last(), now) {
            assert(cleaned(s, user, now).drop_last() == c);
        }
    }
}

/// A new alert of one user leaves every other user's live alerts unchanged.
pub proof fn lemma_alerts_isolated(s: Seq<Alert>, a: Alert, other: AccountId, now: u64)
    requires
        a.owner != other,
    ensures
        active_of(s.push(a), other, now) == active_of(s, other, now),
{
    assert(s.push(a).drop_last() == s);
}

/// Price alerts fire only when their target is reached: every alert that a
/// price check on `token` at `price` fires is a price alert on `token`
/// whose price is at or above its target (direction `Above`) or at or below
/// it (direction `Below`); a live alert whose target is not reached comes
/// out of the check unchanged.
pub proof fn lemma_price_alerts_fire_only_when_reached(
    s: Seq<Alert>,
    token: TokenId,
    price: i128,
    now: u64,
    scope: spec_fn(Alert) -> bool,
    fires: spec_fn(Alert) -> bool,
)
    requires
        forall|a: Alert| #[trigger] scope(a),
        forall|a: Alert| #[trigger] fires(a) == price_fires(a, token, price),
    ensures
        forall|j: int| 0 <= j < fired_all(s, now, scope, fires).len() ==> {
            let a = #[trigger] fired_all(s, now, scope, fires)[j];
            a.kind matches AlertKind::Price { token: t, target_price, direction } && t == token
                && (direction == PriceDirection::Above ==> price >= target_price)
                && (direction == PriceDirection::Below ==> price <= target_price)
        },
        forall|i: int| 0 <= i < s.len() && live(s[i], now) && !(s[i].kind matches AlertKind::Price { token: t, target_price, direction }
            && t == token && (direction == PriceDirection::Above ==> price >= target_price)
            && (direction == PriceDirection::Below ==> price <= target_price))
            ==> #[trigger] check_all(s, now, scope, fires)[i] == s[i],
        forall|i: int| 0 <= i < s.len() && live(s[i], now) && (s[i].kind matches AlertKind::Price { token: t, target_price, direction }
            && t == token && (direction == PriceDirection::Above ==> price >= target_price)
            && (direction == PriceDirection::Below ==> price <= target_price))
            ==> #[trigger] check_all(s, now, scope, fires)[i] == (Alert { last_triggered_at: now, active: s[i].expires_at == 0, ..s[i] }),
    decreases s.len(),
{
    if s.len() > 0 {
        lemma_price_alerts_fire_only_when_reached(s.drop_last(), token, price, now, scope, fires);
        let a = s.last();
        assert(scope(a));
        assert(fires(a) == price_fires(a, token, price));
    }
    assert forall|i: int| 0 <= i < s.len() && live(s[i], now) && !(s[i].kind matches AlertKind::Price { token: t, target_price, direction }
        && t == token && (direction == PriceDirection::Above ==> price >= target_price)
        && (direction == PriceDirection::Below ==> price <= target_price))
        implies #[trigger] check_all(s, now, scope, fires)[i] == s[i] by {
        assert(scope(s[i]));
        assert(fires(s[i]) == price_fires(s[i], token, price));
    }
    assert forall|i: int| 0 <= i < s.len() && live(s[i], now) && (s[i].kind matches AlertKind::Price { token: t, target_price, direction }
        && t == token && (direction == PriceDirection::Above ==> price >= target_price)
        && (direction == PriceDirection::Below ==> price <= target_price))
        implies #[trigger] check_all(s, now, scope, fires)[i] == (Alert { last_triggered_at: now, active: s[i].expires_at == 0, ..s[i] }) by {
        assert(scope(s[i]));
        assert(fires(s[i]) == price_fires(s[i], token, price));
    }
}

} // verus!
