//! Constant-product liquidity pools: registration, adding and removing
//! liquidity, swaps with a fee tier, and best-route search over direct and
//! two-hop paths.
use vstd::prelude::*;
use crate::emergency::AccountId;
use crate::isqrt::{is_floor_sqrt, floor_sqrt, lemma_floor_sqrt_exists, lemma_floor_sqrt_is,
    lemma_newton_step_above, lemma_newton_stop, lemma_newton_no_overflow};

verus! {

/// Token identifier (stands for a token symbol; pairs are ordered by it).
pub type TokenId = u64;

/// Errors of the pool registry.
#[derive(Clone, Copy, Debug, PartialEq, Eq, Structural)]
pub enum PoolError {
    InvalidAmount,
    InvalidSwapPair,
    AmountOverflow,
    LPPositionNotFound,
    InsufficientLPTokens,
    InsufficientBalance,
    InvalidTokenSymbol,
    SlippageExceeded,
}

/// A liquidity pool; `token_a < token_b`.
#[derive(Clone, Copy, Debug, PartialEq, Eq, Structural)]
pub struct LiquidityPool {
    pub pool_id: u64,
    pub token_a: TokenId,
    pub token_b: TokenId,
    pub reserve_a: i128,
    pub reserve_b: i128,
    pub total_lp_tokens: i128,
    /// Fee in basis points: 1, 5 or 30
    pub fee_tier: u32,
}

/// A swap route.
#[derive(Clone, Debug)]
pub struct Route {
    pub pools: Vec<u64>,
    pub tokens: Vec<TokenId>,
    pub expected_output: i128,
    pub total_price_impact_bps: u32,
}

/// Mathematical view of a route.
pub struct RouteView {
    pub pools: Seq<u64>,
    pub tokens: Seq<TokenId>,
    pub expected_output: i128,
    pub total_price_impact_bps: u32,
}

impl Route {
    pub open spec fn view(&self) -> RouteView {
        RouteView {
            pools: self.pools@,
            tokens: self.tokens@,
            expected_output: self.expected_output,
            total_price_impact_bps: self.total_price_impact_bps,
        }
    }
}

/// LP token balance of a provider in a pool.
#[derive(Clone, Copy, Debug, PartialEq, Eq, Structural)]
pub struct LpBalance {
    pub pool_id: u64,
    pub provider: AccountId,
    pub amount: i128,
}

/// Registry of pools (pool `k` at position `k - 1`) and LP balances.
pub struct PoolRegistry {
    pub pools: Vec<LiquidityPool>,
    pub next_pool_id: u64,
    pub lp_balances: Vec<LpBalance>,
}

/// Pool with an id, if registered.
pub open spec fn pool_of(pools: Seq<LiquidityPool>, id: u64) -> Option<LiquidityPool> {
    if 1 <= id && id <= pools.len() { Some(pools[id - 1]) } else { None }
}

/// Ordered pair.
pub open spec fn normalized(a: TokenId, b: TokenId) -> (TokenId, TokenId) {
    if a < b { (a, b) } else { (b, a) }
}

/// Id of the pool registered for an ordered pair (the last one found).
pub open spec fn pair_lookup(pools: Seq<LiquidityPool>, a: TokenId, b: TokenId) -> Option<u64>
    decreases pools.len(),
{
    if pools.len() == 0 {
        None
    } else if pools.last().token_a == a && pools.last().token_b == b {
        Some(pools.last().pool_id)
    } else {
        pair_lookup(pools.drop_last(), a, b)
    }
}

/// LP balance of a provider (the last record; 0 when none).
pub open spec fn balance_of(s: Seq<LpBalance>, pool_id: u64, provider: AccountId) -> i128
    decreases s.len(),
{
    if s.len() == 0 {
        0
    } else if s.last().pool_id == pool_id && s.last().provider == provider {
        s.last().amount
    } else {
        balance_of(s.drop_last(), pool_id, provider)
    }
}

/// Reserves seen from a token: (reserve in, reserve out).
pub open spec fn reserves_for(p: LiquidityPool, token_in: TokenId) -> (i128, i128) {
    if token_in == p.token_a { (p.reserve_a, p.reserve_b) } else { (p.reserve_b, p.reserve_a) }
}

/// Input after the pool fee.
pub open spec fn fee_adjusted_input(p: LiquidityPool, amount_in: i128) -> int {
    (amount_in as u128) * (10000 - p.fee_tier) / 10000
}

/// The output computation stays within 128 bits and divides by a non-zero
/// amount.
pub open spec fn output_fits(p: LiquidityPool, token_in: TokenId, amount_in: i128) -> bool {
    let (rin, rout) = reserves_for(p, token_in);
    let fa = fee_adjusted_input(p, amount_in);
    &&& (amount_in as u128) * (10000 - p.fee_tier) <= u128::MAX
    &&& (rout as u128) * fa <= u128::MAX
    &&& (rin as u128) + fa <= u128::MAX
    &&& (rin as u128) + fa > 0
}

/// Constant-product output: `reserve_out * in_after_fee / (reserve_in + in_after_fee)`.
pub open spec fn output_of(p: LiquidityPool, token_in: TokenId, amount_in: i128) -> i128 {
    let (rin, rout) = reserves_for(p, token_in);
    let fa = fee_adjusted_input(p, amount_in);
    (((rout as u128) * fa / ((rin as u128) + fa)) as u128) as i128
}

/// Whether a value lies within `i128`.
pub open spec fn in_i128(x: int) -> bool {
    i128::MIN <= x <= i128::MAX
}

/// The reserve the input is added to stays within `i128`.
pub open spec fn swap_add_fits(p: LiquidityPool, token_in: TokenId, amount_in: i128) -> bool {
    if token_in == p.token_a { i128::MIN <= p.reserve_a + amount_in <= i128::MAX } else { i128::MIN <= p.reserve_b + amount_in <= i128::MAX }
}

/// The reserve the output is taken from stays within `i128`.
pub open spec fn swap_sub_fits(p: LiquidityPool, token_in: TokenId, out: i128) -> bool {
    if token_in == p.token_a { i128::MIN <= p.reserve_b - out <= i128::MAX } else { i128::MIN <= p.reserve_a - out <= i128::MAX }
}

/// The price impact computation stays within 128 bits.
pub open spec fn impact_fits(p: LiquidityPool, token_in: TokenId, amount_in: i128) -> bool {
    let (rin, _) = reserves_for(p, token_in);
    rin == 0 || (amount_in as u128) * 10000 <= u128::MAX
}

/// Price impact in basis points, capped at 10000 (10000 for an empty reserve).
pub open spec fn impact_of(p: LiquidityPool, token_in: TokenId, amount_in: i128) -> u32 {
    let (rin, _) = reserves_for(p, token_in);
    if rin == 0 {
        10000
    } else {
        let i = (amount_in as u128) * 10000 / ((rin as u128) as int);
        if i <= 10000 { i as u32 } else { 10000 }
    }
}

/// Intermediate token of a two-hop route through a pool that holds the input.
pub open spec fn other_token(p: LiquidityPool, token_in: TokenId) -> TokenId {
    if p.token_a == token_in { p.token_b } else { p.token_a }
}

/// The two pools of a two-hop candidate starting with pool `i`, if it is one.
pub open spec fn two_hop(pools: Seq<LiquidityPool>, i: u64, token_in: TokenId, token_out: TokenId) -> Option<(LiquidityPool, u64, LiquidityPool)> {
    match pool_of(pools, i) {
        Some(p1) => {
            if (p1.token_a == token_in || p1.token_b == token_in) && other_token(p1, token_in) != token_out {
                let inter = other_token(p1, token_in);
                let (x, y) = normalized(inter, token_out);
                match pair_lookup(pools, x, y) {
                    Some(id2) => match pool_of(pools, id2) {
                        Some(p2) => Some((p1, id2, p2)),
                        None => None,
                    },
                    None => None,
                }
            } else {
                None
            }
        },
        None => None,
    }
}

/// The computations of the candidate starting with pool `i` fit in 128 bits.
pub open spec fn candidate_fits(pools: Seq<LiquidityPool>, i: u64, token_in: TokenId, token_out: TokenId, amount_in: i128) -> bool {
    match two_hop(pools, i, token_in, token_out) {
        Some((p1, _, p2)) => {
            let inter = other_token(p1, token_in);
            let out1 = output_of(p1, token_in, amount_in);
            &&& output_fits(p1, token_in, amount_in)
            &&& output_fits(p2, inter, out1)
            &&& impact_fits(p1, token_in, amount_in)
            &&& impact_fits(p2, inter, out1)
        },
        None => true,
    }
}

pub open spec fn sat_add_u32(a: u32, b: u32) -> u32 {
    if a + b > u32::MAX { u32::MAX } else { (a + b) as u32 }
}

/// Route of the candidate starting with pool `i`.
pub open spec fn candidate_route(pools: Seq<LiquidityPool>, i: u64, token_in: TokenId, token_out: TokenId, amount_in: i128) -> RouteView {
    let (p1, id2, p2) = two_hop(pools, i, token_in, token_out)->0;
    let inter = other_token(p1, token_in);
    let out1 = output_of(p1, token_in, amount_in);
    RouteView {
        pools: seq![i, id2],
        tokens: seq![token_in, inter, token_out],
        expected_output: output_of(p2, inter, out1),
        total_price_impact_bps: sat_add_u32(impact_of(p1, token_in, amount_in), impact_of(p2, inter, out1)),
    }
}

/// Best two-hop route among the candidates starting with pools `0..n`: the
/// first one with the largest positive output.
pub open spec fn best_two_hop(pools: Seq<LiquidityPool>, n: int, token_in: TokenId, token_out: TokenId, amount_in: i128) -> (i128, Option<RouteView>)
    decreases n,
{
    if n <= 0 {
        (0, None)
    } else {
        let (best, route) = best_two_hop(pools, n - 1, token_in, token_out, amount_in);
        if two_hop(pools, (n - 1) as u64, token_in, token_out) is Some && candidate_route(pools, (n - 1) as u64, token_in,
            token_out, amount_in).expected_output > best {
            let r = candidate_route(pools, (n - 1) as u64, token_in, token_out, amount_in);
            (r.expected_output, Some(r))
        } else {
            (best, route)
        }
    }
}

/// The direct pool for a pair, if registered.
pub open spec fn direct_pool(pools: Seq<LiquidityPool>, token_in: TokenId, token_out: TokenId) -> Option<(u64, LiquidityPool)> {
    let (x, y) = normalized(token_in, token_out);
    match pair_lookup(pools, x, y) {
        Some(id) => match pool_of(pools, id) {
            Some(p) => Some((id, p)),
            None => None,
        },
        None => None,
    }
}

/// Route search result: the direct pool when there is one, else the best
/// two-hop route.
pub open spec fn best_route(pools: Seq<LiquidityPool>, next: u64, token_in: TokenId, token_out: TokenId, amount_in: i128) -> Option<RouteView> {
    match direct_pool(pools, token_in, token_out) {
        Some((id, p)) => Some(RouteView {
            pools: seq![id],
            tokens: seq![token_in, token_out],
            expected_output: output_of(p, token_in, amount_in),
            total_price_impact_bps: impact_of(p, token_in, amount_in),
        }),
        None => best_two_hop(pools, next as int, token_in, token_out, amount_in).1,
    }
}

/// Route search is free of overflow.
pub open spec fn route_search_fits(pools: Seq<LiquidityPool>, next: u64, token_in: TokenId, token_out: TokenId, amount_in: i128) -> bool {
    match direct_pool(pools, token_in, token_out) {
        Some((_, p)) => output_fits(p, token_in, amount_in) && impact_fits(p, token_in, amount_in),
        None => forall|i: u64| i < next ==> #[trigger] candidate_fits(pools, i, token_in, token_out, amount_in),
    }
}

/// LP tokens minted for a deposit (None when a product overflows).
pub open spec fn lp_minted(p: LiquidityPool, amount_a: i128, amount_b: i128) -> Option<int> {
    if p.total_lp_tokens == 0 {
        match (amount_a as u128).checked_mul(amount_b as u128) {
            Some(prod) => Some((floor_sqrt(prod as int) as u128) as i128 as int),
            None => None,
        }
    } else {
        match ((amount_a as u128).checked_mul(p.total_lp_tokens as u128), (amount_b as u128).checked_mul(p.total_lp_tokens as u128)) {
            (Some(ma), Some(mb)) => {
                let la = ma / (p.reserve_a as u128);
                let lb = mb / (p.reserve_b as u128);
                Some((if la <= lb { la } else { lb }) as i128 as int)
            },
            _ => None,
        }
    }
}

impl PoolRegistry {
    /// Well-formedness: pool `k` sits at position `k - 1`, the next id follows
    /// the last pool, and every pool has an ordered pair and a valid fee tier.
    pub open spec fn wf(&self) -> bool {
        &&& self.next_pool_id == self.pools@.len() + 1
        &&& forall|i: int| 0 <= i < self.pools@.len() ==> (#[trigger] self.pools@[i]).pool_id == i + 1
            && self.pools@[i].token_a < self.pools@[i].token_b
            && (self.pools@[i].fee_tier == 1 || self.pools@[i].fee_tier == 5 || self.pools@[i].fee_tier == 30)
    }

    /// An empty registry.
    pub fn new() -> (r: Self)
        ensures
            r.wf(),
            r.pools@.len() == 0,
            r.lp_balances@.len() == 0,
    {
        PoolRegistry { pools: Vec::new(), next_pool_id: 1, lp_balances: Vec::new() }
    }

    /// Order a pair.
    pub fn normalize_pair(token_a: TokenId, token_b: TokenId) -> (r: (TokenId, TokenId))
        ensures
            r == normalized(token_a, token_b),
    {
        if token_a < token_b { (token_a, token_b) } else { (token_b, token_a) }
    }

    fn lookup_pair(&self, a: TokenId, b: TokenId) -> (r: Option<u64>)
        ensures
            r == pair_lookup(self.pools@, a, b),
    {
        let mut i: usize = self.pools.len();
        proof {
            assert(self.pools@.take(self.pools@.len() as int) == self.pools@);
        }
        while i > 0
            invariant
                i <= self.pools.len(),
                pair_lookup(self.pools@, a, b) == pair_lookup(self.pools@.take(i as int), a, b),
            decreases i,
        {
            let p = self.pools[i - 1];
            proof {
                assert(self.pools@.take(i as int).drop_last() == self.pools@.take(i as int - 1));
                assert(self.pools@.take(i as int).last() == p);
            }
            if p.token_a == a && p.token_b == b {
                return Some(p.pool_id);
            }
            i = i - 1;
        }
        None
    }

    /// Pool with an id.
    pub fn get_pool(&self, pool_id: u64) -> (r: Option<LiquidityPool>)
        ensures
            r == pool_of(self.pools@, pool_id),
    {
        if pool_id >= 1 && pool_id <= self.pools.len() as u64 {
            Some(self.pools[(pool_id - 1) as usize])
        } else {
            None
        }
    }

    /// LP token balance of a provider in a pool (0 when none).
    pub fn get_lp_balance(&self, pool_id: u64, provider: AccountId) -> (r: i128)
        ensures
            r == balance_of(self.lp_balances@, pool_id, provider),
    {
        let mut i: usize = self.lp_balances.len();
        proof {
            assert(self.lp_balances@.take(self.lp_balances@.len() as int) == self.lp_balances@);
        }
        while i > 0
            invariant
                i <= self.lp_balances.len(),
                balance_of(self.lp_balances@, pool_id, provider) == balance_of(self.lp_balances@.take(i as int), pool_id, provider),
            decreases i,
        {
            let b = self.lp_balances[i - 1];
            proof {
                assert(self.lp_balances@.take(i as int).drop_last() == self.lp_balances@.take(i as int - 1));
                assert(self.lp_balances@.take(i as int).last() == b);
            }
            if b.pool_id == pool_id && b.provider == provider {
                return b.amount;
            }
            i = i - 1;
        }
        0
    }

    fn set_lp_balance(&mut self, pool_id: u64, provider: AccountId, amount: i128)
        ensures
            balance_of(final(self).lp_balances@, pool_id, provider) == amount,
            forall|q: u64, a: AccountId| !(q == pool_id && a == provider) ==> #[trigger] balance_of(final(self).lp_balances@, q, a)
                == balance_of(old(self).lp_balances@, q, a),
            final(self).pools == old(self).pools,
            final(self).next_pool_id == old(self).next_pool_id,
    {
        let ghost src: Seq<LpBalance> = self.lp_balances@;
        let mut kept: Vec<LpBalance> = Vec::new();
        let mut i: usize = 0;
        while i < self.lp_balances.len()
            invariant
                i <= self.lp_balances.len(),
                self.lp_balances@ == src,
                kept@ == src.take(i as int).filter(|b: LpBalance| !(b.pool_id == pool_id && b.provider == provider)),
            decreases self.lp_balances.len() - i,
        {
            let b = self.lp_balances[i];
            proof {
                assert(src.take(i as int + 1).drop_last() == src.take(i as int));
                reveal_with_fuel(Seq::filter, 1);
            }
            if !(b.pool_id == pool_id && b.provider == provider) {
                kept.push(b);
            }
            i = i + 1;
        }
        proof {
            assert(src.take(src.len() as int) == src);
            let nb = LpBalance { pool_id, provider, amount };
            assert forall|q: u64, a: AccountId| !(q == pool_id && a == provider)
                implies #[trigger] balance_of(kept@.push(nb), q, a) == balance_of(src, q, a) by {
                assert(kept@.push(nb).drop_last() == kept@);
                lemma_balance_filter(src, pool_id, provider, q, a);
            }
        }
        kept.push(LpBalance { pool_id, provider, amount });
        self.lp_balances = kept;
    }

    /// Register a pool for a new pair with initial reserves; the initial LP
    /// supply is the floor square root of the product of the reserves.
    pub fn register_pool(&mut self, token_a: TokenId, token_b: TokenId, initial_a: i128, initial_b: i128, fee_tier: u32) -> (r: Result<u64, PoolError>)
        requires
            old(self).wf(),
            old(self).next_pool_id < u64::MAX,
        ensures
            final(self).wf(),
            final(self).lp_balances == old(self).lp_balances,
            !(fee_tier == 1 || fee_tier == 5 || fee_tier == 30) ==> r == Err::<u64, PoolError>(PoolError::InvalidAmount),
            (fee_tier == 1 || fee_tier == 5 || fee_tier == 30) && (token_a == token_b || initial_a <= 0 || initial_b <= 0)
                ==> r == Err::<u64, PoolError>(PoolError::InvalidSwapPair),
            (fee_tier == 1 || fee_tier == 5 || fee_tier == 30) && token_a != token_b && initial_a > 0 && initial_b > 0
                && pair_lookup(old(self).pools@, normalized(token_a, token_b).0, normalized(token_a, token_b).1) is Some
                ==> r == Err::<u64, PoolError>(PoolError::InvalidSwapPair),
            (fee_tier == 1 || fee_tier == 5 || fee_tier == 30) && token_a != token_b && initial_a > 0 && initial_b > 0
                && pair_lookup(old(self).pools@, normalized(token_a, token_b).0, normalized(token_a, token_b).1) is None
                && initial_a as int * initial_b as int > u128::MAX ==> r == Err::<u64, PoolError>(PoolError::AmountOverflow),
            r is Err ==> final(self).pools@ == old(self).pools@,
            (fee_tier == 1 || fee_tier == 5 || fee_tier == 30) && token_a != token_b && initial_a > 0 && initial_b > 0
                && pair_lookup(old(self).pools@, normalized(token_a, token_b).0, normalized(token_a, token_b).1) is None
                && initial_a as int * initial_b as int <= u128::MAX ==> {
                let (na, nb) = normalized(token_a, token_b);
                let (ra, rb) = if token_a == na { (initial_a, initial_b) } else { (initial_b, initial_a) };
                &&& r == Ok::<u64, PoolError>(old(self).next_pool_id)
                &&& final(self).pools@ == old(self).pools@.push(LiquidityPool {
                    pool_id: old(self).next_pool_id,
                    token_a: na,
                    token_b: nb,
                    reserve_a: ra,
                    reserve_b: rb,
                    total_lp_tokens: floor_sqrt(initial_a as int * initial_b as int) as i128,
                    fee_tier,
                })
            },
    {
        if !(fee_tier == 1 || fee_tier == 5 || fee_tier == 30) {
            return Err(PoolError::InvalidAmount);
        }
        if token_a == token_b || initial_a <= 0 || initial_b <= 0 {
            return Err(PoolError::InvalidSwapPair);
        }
        let (norm_a, norm_b) = Self::normalize_pair(token_a, token_b);
        if self.lookup_pair(norm_a, norm_b).is_some() {
            return Err(PoolError::InvalidSwapPair);
        }
        let pool_id: u64 = self.next_pool_id;
        let (reserve_a, reserve_b) = if token_a == norm_a { (initial_a, initial_b) } else { (initial_b, initial_a) };
        proof {
            assert(reserve_a as int * reserve_b as int == initial_a as int * initial_b as int) by (nonlinear_arith)
                requires (reserve_a == initial_a && reserve_b == initial_b) || (reserve_a == initial_b && reserve_b == initial_a);
        }
        let product: u128 = match (reserve_a as u128).checked_mul(reserve_b as u128) {
            Some(p) => p,
            None => {
                return Err(PoolError::AmountOverflow);
            },
        };
        let root: u128 = Self::sqrt(product);
        proof {
            lemma_floor_sqrt_is(product as int, root as int);
            assert(root <= i128::MAX) by (nonlinear_arith)
                requires root as int * root as int <= product as int, product <= u128::MAX;
        }
        let initial_lp: i128 = root as i128;
        self.pools.push(LiquidityPool {
            pool_id,
            token_a: norm_a,
            token_b: norm_b,
            reserve_a,
            reserve_b,
            total_lp_tokens: initial_lp,
            fee_tier,
        });
        self.next_pool_id = self.next_pool_id + 1;
        Ok(pool_id)
    }

    /// Add liquidity to a pool: mints LP tokens proportional to the smaller
    /// share of the deposit (or the square root of the product for an empty
    /// supply) and credits them to the provider.
    pub fn add_liquidity(&mut self, pool_id: u64, amount_a: i128, amount_b: i128, provider: AccountId) -> (r: Result<i128, PoolError>)
        requires
            old(self).wf(),
        ensures
            final(self).wf(),
            pool_of(old(self).pools@, pool_id) is None ==> r == Err::<i128, PoolError>(PoolError::LPPositionNotFound)
                && final(self).pools@ == old(self).pools@ && final(self).lp_balances@ == old(self).lp_balances@,
            pool_of(old(self).pools@, pool_id) matches Some(p) ==> {
                let minted = lp_minted(p, amount_a, amount_b);
                &&& (amount_a <= 0 || amount_b <= 0 || p.reserve_a == 0 || p.reserve_b == 0)
                    ==> r == Err::<i128, PoolError>(PoolError::InvalidAmount)
                &&& !(amount_a <= 0 || amount_b <= 0 || p.reserve_a == 0 || p.reserve_b == 0) && minted is None
                    ==> r == Err::<i128, PoolError>(PoolError::AmountOverflow)
                &&& !(amount_a <= 0 || amount_b <= 0 || p.reserve_a == 0 || p.reserve_b == 0) && minted is Some && minted->0 <= 0
                    ==> r == Err::<i128, PoolError>(PoolError::InvalidAmount)
                &&& r matches Ok(m) ==> p.total_lp_tokens > 0 && p.reserve_a > 0 && p.reserve_b > 0 ==> m * p.reserve_a <= amount_a * p.total_lp_tokens
                    && m * p.reserve_b <= amount_b * p.total_lp_tokens
                &&& r is Ok ==> {
                    let m = minted->0;
                    &&& r == Ok::<i128, PoolError>(m as i128)
                    &&& final(self).pools@ == old(self).pools@.update(pool_id - 1, LiquidityPool {
                        reserve_a: (p.reserve_a + amount_a) as i128,
                        reserve_b: (p.reserve_b + amount_b) as i128,
                        total_lp_tokens: (p.total_lp_tokens + m) as i128,
                        ..p
                    })
                    &&& balance_of(final(self).lp_balances@, pool_id, provider) == balance_of(old(self).lp_balances@, pool_id, provider) + m
                    &&& forall|q: u64, a: AccountId| !(q == pool_id && a == provider) ==> #[trigger] balance_of(final(self).lp_balances@, q, a)
                        == balance_of(old(self).lp_balances@, q, a)
                }
                &&& r is Ok <==> (!(amount_a <= 0 || amount_b <= 0 || p.reserve_a == 0 || p.reserve_b == 0) && minted is Some
                    && minted->0 > 0 && p.reserve_a + amount_a <= i128::MAX && p.reserve_b + amount_b <= i128::MAX
                    && p.total_lp_tokens + minted->0 <= i128::MAX && p.total_lp_tokens + minted->0 >= i128::MIN
                    && balance_of(old(self).lp_balances@, pool_id, provider) + minted->0 <= i128::MAX
                    && balance_of(old(self).lp_balances@, pool_id, provider) + minted->0 >= i128::MIN)
            },
    {
        let mut pool = match self.get_pool(pool_id) {
            Some(p) => p,
            None => {
                return Err(PoolError::LPPositionNotFound);
            },
        };
        let pools_len: usize = self.pools.len();
        assert(1 <= pool_id <= pools_len);
        let ghost p0 = pool;
        if amount_a <= 0 || amount_b <= 0 || pool.reserve_a == 0 || pool.reserve_b == 0 {
            return Err(PoolError::InvalidAmount);
        }
        let lp_tokens: i128 = if pool.total_lp_tokens == 0 {
            let product: u128 = match (amount_a as u128).checked_mul(amount_b as u128) {
                Some(v) => v,
                None => {
                    return Err(PoolError::AmountOverflow);
                },
            };
            let root: u128 = Self::sqrt(product);
            proof {
                lemma_floor_sqrt_is(product as int, root as int);
            }
            root as i128
        } else {
            let ma: u128 = match (amount_a as u128).checked_mul(pool.total_lp_tokens as u128) {
                Some(v) => v,
                None => {
                    return Err(PoolError::AmountOverflow);
                },
            };
            let ra: i128 = pool.reserve_a;
            let rb: i128 = pool.reserve_b;
            assert(ra != 0 ==> (ra as u128) != 0) by (bit_vector);
            assert(rb != 0 ==> (rb as u128) != 0) by (bit_vector);
            let lp_a: u128 = ma / (pool.reserve_a as u128);
            let mb: u128 = match (amount_b as u128).checked_mul(pool.total_lp_tokens as u128) {
                Some(v) => v,
                None => {
                    return Err(PoolError::AmountOverflow);
                },
            };
            let lp_b: u128 = mb / (pool.reserve_b as u128);
            let m: u128 = if lp_a <= lp_b { lp_a } else { lp_b };
            m as i128
        };
        assert(lp_minted(p0, amount_a, amount_b) == Some(lp_tokens as int));
        if lp_tokens <= 0 {
            return Err(PoolError::InvalidAmount);
        }
        let new_a: i128 = match pool.reserve_a.checked_add(amount_a) {
            Some(v) => v,
            None => {
                return Err(PoolError::AmountOverflow);
            },
        };
        let new_b: i128 = match pool.reserve_b.checked_add(amount_b) {
            Some(v) => v,
            None => {
                return Err(PoolError::AmountOverflow);
            },
        };
        let new_total: i128 = match pool.total_lp_tokens.checked_add(lp_tokens) {
            Some(v) => v,
            None => {
                return Err(PoolError::AmountOverflow);
            },
        };
        let current: i128 = self.get_lp_balance(pool_id, provider);
        let new_balance: i128 = match current.checked_add(lp_tokens) {
            Some(v) => v,
            None => {
                return Err(PoolError::AmountOverflow);
            },
        };
        pool.reserve_a = new_a;
        pool.reserve_b = new_b;
        pool.total_lp_tokens = new_total;
        proof {
            lemma_wf_update(self.pools@, pool_id - 1, pool);
        }
        let idx: usize = (pool_id - 1) as usize;
        assert(idx as int == pool_id - 1);
        self.pools.set(idx, pool);
        self.set_lp_balance(pool_id, provider, new_balance);
        proof {
            if p0.reserve_a > 0 && p0.reserve_b > 0 {
                lemma_lp_minted_is_smaller_share(p0, amount_a, amount_b, lp_tokens as int);
            }
        }
        Ok(lp_tokens)
    }

    /// Remove liquidity: pays out the provider's share of both reserves for
    /// the burned LP tokens.
    pub fn remove_liquidity(&mut self, pool_id: u64, lp_tokens: i128, provider: AccountId) -> (r: Result<(i128, i128), PoolError>)
        requires
            old(self).wf(),
            pool_of(old(self).pools@, pool_id) matches Some(p) ==> balance_of(old(self).lp_balances@, pool_id, provider) >= lp_tokens
                ==> p.total_lp_tokens as u128 != 0,
        ensures
            final(self).wf(),
            pool_of(old(self).pools@, pool_id) is None ==> r == Err::<(i128, i128), PoolError>(PoolError::LPPositionNotFound)
                && final(self).pools@ == old(self).pools@ && final(self).lp_balances@ == old(self).lp_balances@,
            pool_of(old(self).pools@, pool_id) matches Some(p) ==> {
                let bal = balance_of(old(self).lp_balances@, pool_id, provider);
                let ma = (lp_tokens as u128).checked_mul(p.reserve_a as u128);
                let mb = (lp_tokens as u128).checked_mul(p.reserve_b as u128);
                &&& bal < lp_tokens ==> r == Err::<(i128, i128), PoolError>(PoolError::InsufficientLPTokens)
                &&& bal >= lp_tokens && (ma is None || mb is None) ==> r == Err::<(i128, i128), PoolError>(PoolError::AmountOverflow)
                &&& bal >= lp_tokens && ma is Some && mb is Some ==> {
                    let out_a = ((ma->0 / (p.total_lp_tokens as u128)) as u128) as i128;
                    let out_b = ((mb->0 / (p.total_lp_tokens as u128)) as u128) as i128;
                    let reserves_fit = in_i128(p.reserve_a - out_a) && in_i128(p.reserve_b - out_b);
                    let supply_fits = in_i128(p.total_lp_tokens - lp_tokens) && in_i128(bal - lp_tokens);
                    &&& !reserves_fit ==> r == Err::<(i128, i128), PoolError>(PoolError::InsufficientBalance)
                    &&& reserves_fit && !supply_fits ==> r == Err::<(i128, i128), PoolError>(PoolError::InsufficientLPTokens)
                    &&& (r is Ok <==> reserves_fit && supply_fits)
                }
                &&& r is Err ==> final(self).pools@ == old(self).pools@ && final(self).lp_balances@ == old(self).lp_balances@
                &&& r is Ok ==> {
                    let out_a = ((ma->0 / (p.total_lp_tokens as u128)) as u128) as i128;
                    let out_b = ((mb->0 / (p.total_lp_tokens as u128)) as u128) as i128;
                    &&& bal >= lp_tokens && ma is Some && mb is Some
                    &&& r == Ok::<(i128, i128), PoolError>((out_a, out_b))
                    &&& final(self).pools@ == old(self).pools@.update(pool_id - 1, LiquidityPool {
                        reserve_a: (p.reserve_a - out_a) as i128,
                        reserve_b: (p.reserve_b - out_b) as i128,
                        total_lp_tokens: (p.total_lp_tokens - lp_tokens) as i128,
                        ..p
                    })
                    &&& balance_of(final(self).lp_balances@, pool_id, provider) == bal - lp_tokens
                    &&& forall|q: u64, a: AccountId| !(q == pool_id && a == provider) ==> #[trigger] balance_of(final(self).lp_balances@, q, a)
                        == balance_of(old(self).lp_balances@, q, a)
                }
            },
    {
        let mut pool = match self.get_pool(pool_id) {
            Some(p) => p,
            None => {
                return Err(PoolError::LPPositionNotFound);
            },
        };
        let pools_len: usize = self.pools.len();
        assert(1 <= pool_id <= pools_len);
        let balance: i128 = self.get_lp_balance(pool_id, provider);
        if balance < lp_tokens {
            return Err(PoolError::InsufficientLPTokens);
        }
        let ma: u128 = match (lp_tokens as u128).checked_mul(pool.reserve_a as u128) {
            Some(v) => v,
            None => {
                return Err(PoolError::AmountOverflow);
            },
        };
        let amount_a: i128 = (ma / (pool.total_lp_tokens as u128)) as i128;
        let mb: u128 = match (lp_tokens as u128).checked_mul(pool.reserve_b as u128) {
            Some(v) => v,
            None => {
                return Err(PoolError::AmountOverflow);
            },
        };
        let amount_b: i128 = (mb / (pool.total_lp_tokens as u128)) as i128;
        let new_a: i128 = match pool.reserve_a.checked_sub(amount_a) {
            Some(v) => v,
            None => {
                return Err(PoolError::InsufficientBalance);
            },
        };
        let new_b: i128 = match pool.reserve_b.checked_sub(amount_b) {
            Some(v) => v,
            None => {
                return Err(PoolError::InsufficientBalance);
            },
        };
        let new_total: i128 = match pool.total_lp_tokens.checked_sub(lp_tokens) {
            Some(v) => v,
            None => {
                return Err(PoolError::InsufficientLPTokens);
            },
        };
        let new_balance: i128 = match balance.checked_sub(lp_tokens) {
            Some(v) => v,
            None => {
                return Err(PoolError::InsufficientLPTokens);
            },
        };
        pool.reserve_a = new_a;
        pool.reserve_b = new_b;
        pool.total_lp_tokens = new_total;
        proof {
            lemma_wf_update(self.pools@, pool_id - 1, pool);
        }
        let idx: usize = (pool_id - 1) as usize;
        assert(idx as int == pool_id - 1);
        self.pools.set(idx, pool);
        self.set_lp_balance(pool_id, provider, new_balance);
        Ok((amount_a, amount_b))
    }

    /// Swap an amount of one token of a pool for the other at the
    /// constant-product price after the fee, refusing outputs below the
    /// minimum.
    pub fn swap(&mut self, pool_id: u64, token_in: TokenId, amount_in: i128, min_amount_out: i128) -> (r: Result<i128, PoolError>)
        requires
            old(self).wf(),
        ensures
            final(self).wf(),
            final(self).lp_balances == old(self).lp_balances,
            r is Err ==> final(self).pools@ == old(self).pools@,
            pool_of(old(self).pools@, pool_id) is None ==> r == Err::<i128, PoolError>(PoolError::LPPositionNotFound),
            pool_of(old(self).pools@, pool_id) matches Some(p) ==> {
                &&& amount_in <= 0 ==> r == Err::<i128, PoolError>(PoolError::InvalidAmount)
                &&& amount_in > 0 && token_in != p.token_a && token_in != p.token_b ==> r == Err::<i128, PoolError>(PoolError::InvalidTokenSymbol)
                &&& amount_in > 0 && (token_in == p.token_a || token_in == p.token_b) && !output_fits(p, token_in, amount_in)
                    ==> r == Err::<i128, PoolError>(PoolError::AmountOverflow)
                &&& amount_in > 0 && (token_in == p.token_a || token_in == p.token_b) && output_fits(p, token_in, amount_in)
                    && output_of(p, token_in, amount_in) < min_amount_out ==> r == Err::<i128, PoolError>(PoolError::SlippageExceeded)
                &&& amount_in > 0 && (token_in == p.token_a || token_in == p.token_b) && output_fits(p, token_in, amount_in)
                    && output_of(p, token_in, amount_in) >= min_amount_out && !swap_add_fits(p, token_in, amount_in)
                    ==> r == Err::<i128, PoolError>(PoolError::AmountOverflow)
                &&& amount_in > 0 && (token_in == p.token_a || token_in == p.token_b) && output_fits(p, token_in, amount_in)
                    && output_of(p, token_in, amount_in) >= min_amount_out && swap_add_fits(p, token_in, amount_in)
                    && !swap_sub_fits(p, token_in, output_of(p, token_in, amount_in))
                    ==> r == Err::<i128, PoolError>(PoolError::InsufficientBalance)
                &&& r is Ok <==> (amount_in > 0 && (token_in == p.token_a || token_in == p.token_b) && output_fits(p, token_in, amount_in)
                    && output_of(p, token_in, amount_in) >= min_amount_out && swap_add_fits(p, token_in, amount_in)
                    && swap_sub_fits(p, token_in, output_of(p, token_in, amount_in)))
                &&& r matches Ok(out) ==> swap_done(p, token_in, amount_in, out, final(self).pools@[pool_id - 1])
                &&& r is Ok ==> {
                    let out = output_of(p, token_in, amount_in);
                    &&& amount_in > 0 && (token_in == p.token_a || token_in == p.token_b) && output_fits(p, token_in, amount_in)
                    &&& out >= min_amount_out
                    &&& r == Ok::<i128, PoolError>(out)
                    &&& final(self).pools@ == old(self).pools@.update(pool_id - 1, if token_in == p.token_a {
                        LiquidityPool { reserve_a: (p.reserve_a + amount_in) as i128, reserve_b: (p.reserve_b - out) as i128, ..p }
                    } else {
                        LiquidityPool { reserve_b: (p.reserve_b + amount_in) as i128, reserve_a: (p.reserve_a - out) as i128, ..p }
                    })
                }
            },
    {
        let mut pool = match self.get_pool(pool_id) {
            Some(p) => p,
            None => {
                return Err(PoolError::LPPositionNotFound);
            },
        };
        let pools_len: usize = self.pools.len();
        assert(1 <= pool_id <= pools_len);
        if amount_in <= 0 {
            return Err(PoolError::InvalidAmount);
        }
        let (reserve_in, reserve_out) = if token_in == pool.token_a {
            (pool.reserve_a, pool.reserve_b)
        } else if token_in == pool.token_b {
            (pool.reserve_b, pool.reserve_a)
        } else {
            return Err(PoolError::InvalidTokenSymbol);
        };
        let fee_factor: u128 = 10000 - pool.fee_tier as u128;
        let scaled: u128 = match (amount_in as u128).checked_mul(fee_factor) {
            Some(v) => v,
            None => {
                return Err(PoolError::AmountOverflow);
            },
        };
        let amount_in_with_fee: u128 = scaled / 10000;
        assert(amount_in_with_fee == fee_adjusted_input(pool, amount_in));
        let numerator: u128 = match (reserve_out as u128).checked_mul(amount_in_with_fee) {
            Some(v) => v,
            None => {
                return Err(PoolError::AmountOverflow);
            },
        };
        let denominator: u128 = match (reserve_in as u128).checked_add(amount_in_with_fee) {
            Some(v) => v,
            None => {
                return Err(PoolError::AmountOverflow);
            },
        };
        if denominator == 0 {
            return Err(PoolError::AmountOverflow);
        }
        let amount_out: i128 = (numerator / denominator) as i128;
        assert(amount_out == output_of(pool, token_in, amount_in));
        if amount_out < min_amount_out {
            return Err(PoolError::SlippageExceeded);
        }
        if token_in == pool.token_a {
            let a: i128 = match pool.reserve_a.checked_add(amount_in) {
                Some(v) => v,
                None => {
                    return Err(PoolError::AmountOverflow);
                },
            };
            let b: i128 = match pool.reserve_b.checked_sub(amount_out) {
                Some(v) => v,
                None => {
                    return Err(PoolError::InsufficientBalance);
                },
            };
            pool.reserve_a = a;
            pool.reserve_b = b;
        } else {
            let b: i128 = match pool.reserve_b.checked_add(amount_in) {
                Some(v) => v,
                None => {
                    return Err(PoolError::AmountOverflow);
                },
            };
            let a: i128 = match pool.reserve_a.checked_sub(amount_out) {
                Some(v) => v,
                None => {
                    return Err(PoolError::InsufficientBalance);
                },
            };
            pool.reserve_b = b;
            pool.reserve_a = a;
        }
        proof {
            lemma_wf_update(self.pools@, pool_id - 1, pool);
        }
        let idx: usize = (pool_id - 1) as usize;
        assert(idx as int == pool_id - 1);
        self.pools.set(idx, pool);
        Ok(amount_out)
    }

    /// Expected output of a swap through a pool.
    pub fn calculate_output(pool: &LiquidityPool, token_in: TokenId, amount_in: i128) -> (r: i128)
        requires
            pool.fee_tier <= 10000,
            output_fits(*pool, token_in, amount_in),
        ensures
            r == output_of(*pool, token_in, amount_in),
    {
        let (reserve_in, reserve_out) = if token_in == pool.token_a {
            (pool.reserve_a, pool.reserve_b)
        } else {
            (pool.reserve_b, pool.reserve_a)
        };
        let amount_in_with_fee: u128 = (amount_in as u128) * (10000 - pool.fee_tier as u128) / 10000;
        ((reserve_out as u128) * amount_in_with_fee / ((reserve_in as u128) + amount_in_with_fee)) as i128
    }

    /// Price impact of a swap through a pool (basis points, capped at 10000).
    pub fn calculate_price_impact(pool: &LiquidityPool, token_in: TokenId, amount_in: i128) -> (r: u32)
        requires
            impact_fits(*pool, token_in, amount_in),
        ensures
            r == impact_of(*pool, token_in, amount_in),
            r <= 10000,
    {
        let reserve_in: i128 = if token_in == pool.token_a { pool.reserve_a } else { pool.reserve_b };
        if reserve_in == 0 {
            return 10000;
        }
        assert(reserve_in != 0 ==> (reserve_in as u128) != 0) by (bit_vector);
        let impact: u128 = ((amount_in as u128) * 10000) / (reserve_in as u128);
        if impact <= 10000 { impact as u32 } else { 10000 }
    }

    /// Best route from one token to another: the direct pool when the pair
    /// has one, else the two-hop route with the largest positive output (the
    /// first such candidate in pool order).
    pub fn find_best_route(&self, token_in: TokenId, token_out: TokenId, amount_in: i128) -> (r: Option<Route>)
        requires
            self.wf(),
            route_search_fits(self.pools@, self.next_pool_id, token_in, token_out, amount_in),
        ensures
            match r {
                Some(route) => best_route(self.pools@, self.next_pool_id, token_in, token_out, amount_in) == Some(route.view()),
                None => best_route(self.pools@, self.next_pool_id, token_in, token_out, amount_in) is None,
            },
            direct_pool(self.pools@, token_in, token_out) is None ==> forall|i: u64| i < self.next_pool_id
                && two_hop(self.pools@, i, token_in, token_out) is Some ==> match r {
                    Some(route) => #[trigger] candidate_route(self.pools@, i, token_in, token_out, amount_in).expected_output
                        <= route.expected_output,
                    None => candidate_route(self.pools@, i, token_in, token_out, amount_in).expected_output <= 0,
                },
    {
        let (norm_in, norm_out) = Self::normalize_pair(token_in, token_out);
        match self.lookup_pair(norm_in, norm_out) {
            Some(pool_id) => {
                match self.get_pool(pool_id) {
                    Some(pool) => {
                        let output: i128 = Self::calculate_output(&pool, token_in, amount_in);
                        let impact: u32 = Self::calculate_price_impact(&pool, token_in, amount_in);
                        let mut pools: Vec<u64> = Vec::new();
                        pools.push(pool_id);
                        let mut tokens: Vec<TokenId> = Vec::new();
                        tokens.push(token_in);
                        tokens.push(token_out);
                        proof {
                            assert(pools@ == seq![pool_id]);
                            assert(tokens@ == seq![token_in, token_out]);
                        }
                        return Some(Route { pools, tokens, expected_output: output, total_price_impact_bps: impact });
                    },
                    None => {},
                }
            },
            None => {},
        }
        proof {
            assert(direct_pool(self.pools@, token_in, token_out) is None);
            lemma_best_route_maximises(self.pools@, self.next_pool_id, token_in, token_out, amount_in);
        }
        let mut best_route: Option<Route> = None;
        let mut best_output: i128 = 0;
        let mut i: u64 = 0;
        while i < self.next_pool_id
            invariant
                self.wf(),
                i <= self.next_pool_id,
                direct_pool(self.pools@, token_in, token_out) is None,
                forall|k: u64| k < self.next_pool_id ==> #[trigger] candidate_fits(self.pools@, k, token_in, token_out, amount_in),
                best_two_hop(self.pools@, i as int, token_in, token_out, amount_in).0 == best_output,
                match best_route {
                    Some(route) => best_two_hop(self.pools@, i as int, token_in, token_out, amount_in).1 == Some(route.view()),
                    None => best_two_hop(self.pools@, i as int, token_in, token_out, amount_in).1 is None,
                },
            decreases self.next_pool_id - i,
        {
            proof {
                assert(candidate_fits(self.pools@, i, token_in, token_out, amount_in));
            }
            match self.get_pool(i) {
                Some(pool1) => {
                    if pool1.token_a == token_in || pool1.token_b == token_in {
                        let intermediate: TokenId = if pool1.token_a == token_in { pool1.token_b } else { pool1.token_a };
                        if intermediate != token_out {
                            let (norm_int, norm_o) = Self::normalize_pair(intermediate, token_out);
                            match self.lookup_pair(norm_int, norm_o) {
                                Some(pool2_id) => {
                                    match self.get_pool(pool2_id) {
                                        Some(pool2) => {
                                            proof {
                                                assert(two_hop(self.pools@, i, token_in, token_out) == Some((pool1, pool2_id, pool2)));
                                                assert(pool1.fee_tier <= 10000);
                                                assert(pool2.fee_tier <= 10000);
                                            }
                                            let out1: i128 = Self::calculate_output(&pool1, token_in, amount_in);
                                            let out2: i128 = Self::calculate_output(&pool2, intermediate, out1);
                                            let impact1: u32 = Self::calculate_price_impact(&pool1, token_in, amount_in);
                                            let impact2: u32 = Self::calculate_price_impact(&pool2, intermediate, out1);
                                            let total_impact: u32 = impact1.saturating_add(impact2);
                                            if out2 > best_output {
                                                best_output = out2;
                                                let mut pools: Vec<u64> = Vec::new();
                                                pools.push(i);
                                                pools.push(pool2_id);
                                                let mut tokens: Vec<TokenId> = Vec::new();
                                                tokens.push(token_in);
                                                tokens.push(intermediate);
                                                tokens.push(token_out);
                                                proof {
                                                    assert(pools@ == seq![i, pool2_id]);
                                                    assert(tokens@ == seq![token_in, intermediate, token_out]);
                                                }
                                                best_route = Some(Route {
                                                    pools,
                                                    tokens,
                                                    expected_output: out2,
                                                    total_price_impact_bps: total_impact,
                                                });
                                            }
                                        },
                                        None => {},
                                    }
                                },
                                None => {},
                            }
                        }
                    }
                },
                None => {},
            }
            i = i + 1;
        }
        best_route
    }

    /// Floor square root (Babylonian iteration starting at `y / 2 + 1`).
    pub fn sqrt(y: u128) -> (r: u128)
        ensures
            is_floor_sqrt(y as int, r as int),
    {
        if y < 4 {
            proof {
                if y == 0 {
                    assert(is_floor_sqrt(0, 0));
                } else {
                    assert(1 * 1 <= y && y < 2 * 2);
                }
            }
            return if y == 0 { 0 } else { 1 };
        }
        let ghost s: int = lemma_floor_sqrt_exists(y as int);
        proof {
            if s <= 1 {
                assert((s + 1) * (s + 1) <= 4) by (nonlinear_arith)
                    requires s <= 1, s >= 0;
            }
            assert(s <= y as int / 2 + 1) by (nonlinear_arith)
                requires s * s <= y, s >= 0, y >= 4;
            if s == 0 {
                assert((s + 1) * (s + 1) == 1) by (nonlinear_arith)
                    requires s == 0;
            }
        }
        let mut z: u128 = y;
        let mut x: u128 = y / 2 + 1;
        while x < z
            invariant
                is_floor_sqrt(y as int, s),
                s >= 2,
                y >= 4,
                1 <= z <= y,
                x >= s,
                z >= s,
                (z == y && x as int == y as int / 2 + 1) || x as int == (z as int + y as int / z as int) / 2,
                z == y || z as int <= y as int / 2 + 1,
            decreases z,
        {
            proof {
                if z == y && x as int != y as int / 2 + 1 {
                    assert((y as int + y as int / y as int) / 2 <= y as int / 2 + 1) by (nonlinear_arith)
                        requires y >= 4;
                }
            }
            z = x;
            proof {
                lemma_newton_no_overflow(y as int, z as int);
                lemma_newton_step_above(y as int, z as int, s);
                lemma_sqrt_step_bound(y as int, z as int);
            }
            let q: u128 = y / z;
            x = (q + z) / 2;
        }
        proof {
            if z == y {
                assert(false) by (nonlinear_arith)
                    requires x as int == y as int / 2 + 1, x >= z, z == y, y >= 4;
            }
            lemma_newton_stop(y as int, z as int);
            if z > s {
                assert((s + 1) * (s + 1) <= z as int * z as int) by (nonlinear_arith)
                    requires s + 1 <= z, s >= 0;
            }
        }
        z
    }
}

/// For `2 <= z <= y / 2 + 1`, a step `z + y / z` stays below `y / 2 + 2`.
proof fn lemma_sqrt_step_bound(y: int, z: int)
    requires
        y >= 4,
        2 <= z <= y / 2 + 1,
    ensures
        z + y / z <= y / 2 + 2,
{
    let h = y / 2 + 1;
    assert(2 * h >= y + 1);
    assert(z * (h + 2 - z) >= 2 * h) by (nonlinear_arith)
        requires 2 <= z <= h;
    assert(y / z < h + 2 - z) by (nonlinear_arith)
        requires z >= 2, y < z * (h + 2 - z), y >= 0;
}

/// Replacing a pool by one with the same id, pair and fee keeps the registry
/// well formed.
proof fn lemma_wf_update(pools: Seq<LiquidityPool>, k: int, np: LiquidityPool)
    requires
        0 <= k < pools.len(),
        forall|i: int| 0 <= i < pools.len() ==> (#[trigger] pools[i]).pool_id == i + 1
            && pools[i].token_a < pools[i].token_b
            && (pools[i].fee_tier == 1 || pools[i].fee_tier == 5 || pools[i].fee_tier == 30),
        np.pool_id == pools[k].pool_id,
        np.token_a == pools[k].token_a,
        np.token_b == pools[k].token_b,
        np.fee_tier == pools[k].fee_tier,
    ensures
        forall|i: int| 0 <= i < pools.len() ==> (#[trigger] pools.update(k, np)[i]).pool_id == i + 1
            && pools.update(k, np)[i].token_a < pools.update(k, np)[i].token_b
            && (pools.update(k, np)[i].fee_tier == 1 || pools.update(k, np)[i].fee_tier == 5 || pools.update(k, np)[i].fee_tier == 30),
{
    assert forall|i: int| 0 <= i < pools.len() implies (#[trigger] pools.update(k, np)[i]).pool_id == i + 1
        && pools.update(k, np)[i].token_a < pools.update(k, np)[i].token_b
        && (pools.update(k, np)[i].fee_tier == 1 || pools.update(k, np)[i].fee_tier == 5 || pools.update(k, np)[i].fee_tier == 30) by {
        if i != k {
            assert(pools.update(k, np)[i] == pools[i]);
        }
    }
}

proof fn lemma_balance_filter(src: Seq<LpBalance>, pool_id: u64, provider: AccountId, q: u64, a: AccountId)
    requires
        !(q == pool_id && a == provider),
    ensures
        balance_of(src.filter(|b: LpBalance| !(b.pool_id == pool_id && b.provider == provider)), q, a) == balance_of(src, q, a),
    decreases src.len(),
{
    reveal_with_fuel(Seq::filter, 1);
    if src.len() > 0 {
        lemma_balance_filter(src.drop_last(), pool_id, provider, q, a);
        let f = src.drop_last().filter(|b: LpBalance| !(b.pool_id == pool_id && b.provider == provider));
        if !(src.last().pool_id == pool_id && src.last().provider == provider) {
            assert(f.push(src.last()).drop_last() == f);
        }
    }
}

/// LP tokens for a deposit into a pool that already has a supply `T` are
/// the smaller of the two proportional shares: at most `a * T / r_a`, at
/// most `b * T / r_b`, and equal to one of them. Into an empty supply they
/// are the floor of the square root of `a * b`.
pub proof fn lemma_lp_minted_is_smaller_share(p: LiquidityPool, amount_a: i128, amount_b: i128, minted: int)
    requires
        lp_minted(p, amount_a, amount_b) == Some(minted),
        minted > 0,
        amount_a > 0,
        amount_b > 0,
        p.reserve_a > 0,
        p.reserve_b > 0,
    ensures
        p.total_lp_tokens > 0 ==> {
            &&& minted * p.reserve_a <= amount_a * p.total_lp_tokens
            &&& minted * p.reserve_b <= amount_b * p.total_lp_tokens
            &&& minted == amount_a * p.total_lp_tokens / (p.reserve_a as int)
                || minted == amount_b * p.total_lp_tokens / (p.reserve_b as int)
        },
        p.total_lp_tokens == 0 ==> minted * minted <= amount_a * amount_b < (minted + 1) * (minted + 1),
{
    let a: int = amount_a as int;
    let b: int = amount_b as int;
    let t: int = p.total_lp_tokens as int;
    let ra: int = p.reserve_a as int;
    let rb: int = p.reserve_b as int;
    assert((amount_a as u128) as int == a);
    assert((amount_b as u128) as int == b);
    assert((p.reserve_a as u128) as int == ra);
    assert((p.reserve_b as u128) as int == rb);
    if t == 0 {
        assert((p.total_lp_tokens as u128) as int == t);
        let prod: int = a * b;
        assert(prod > 0) by (nonlinear_arith) requires a > 0, b > 0, prod == a * b;
        assert(prod <= u128::MAX);
        let r = floor_sqrt(prod);
        let ghost w: int = lemma_floor_sqrt_exists(prod);
        lemma_floor_sqrt_is(prod, w);
        assert(is_floor_sqrt(prod, r));
        assert(r * r <= prod);
        assert(r <= prod) by (nonlinear_arith) requires r >= 0, r * r <= prod, prod > 0;
        assert((r as u128) as int == r);
        assert(r <= u128::MAX);
        let ru: u128 = r as u128;
        assert(ru > 0x7fff_ffff_ffff_ffff_ffff_ffff_ffff_ffffu128 ==> (ru as i128) < 0) by (bit_vector);
        assert(minted == r);
    } else if t > 0 {
        assert((p.total_lp_tokens as u128) as int == t);
        let la: int = a * t / ra;
        let lb: int = b * t / rb;
        assert(la * ra <= a * t) by (nonlinear_arith) requires ra > 0, la == a * t / ra;
        assert(lb * rb <= b * t) by (nonlinear_arith) requires rb > 0, lb == b * t / rb;
        assert(la >= 0 && lb >= 0) by (nonlinear_arith) requires ra > 0, rb > 0, a > 0, b > 0, t > 0, la == a * t / ra, lb == b * t / rb;
        let m: int = if la <= lb { la } else { lb };
        assert(m <= u128::MAX);
        let mu: u128 = m as u128;
        assert(mu > 0x7fff_ffff_ffff_ffff_ffff_ffff_ffff_ffffu128 ==> (mu as i128) < 0) by (bit_vector);
        assert(minted == m);
        assert(minted * ra <= a * t) by (nonlinear_arith) requires minted <= la, la * ra <= a * t, ra > 0;
        assert(minted * rb <= b * t) by (nonlinear_arith) requires minted <= lb, lb * rb <= b * t, rb > 0;
    }
}

/// The two-hop search keeps the best candidate: among the candidates
/// starting with pools `0..n`, the route it keeps has an output no smaller
/// than that of any candidate, is one of the candidates and has a positive
/// output; when it keeps none, no candidate has a positive output.
pub proof fn lemma_best_two_hop_maximises(pools: Seq<LiquidityPool>, n: int, token_in: TokenId, token_out: TokenId, amount_in: i128)
    ensures
        ({
            let (best, route) = best_two_hop(pools, n, token_in, token_out, amount_in);
            &&& best >= 0
            &&& forall|i: u64| 0 <= i < n && two_hop(pools, i, token_in, token_out) is Some
                ==> #[trigger] candidate_route(pools, i, token_in, token_out, amount_in).expected_output <= best
            &&& route is None ==> best == 0
            &&& route matches Some(v) ==> v.expected_output == best && best > 0 && exists|i: u64| 0 <= i < n
                && two_hop(pools, i, token_in, token_out) is Some && #[trigger] candidate_route(pools, i, token_in, token_out, amount_in) == v
        }),
    decreases n,
{
    if n > 0 {
        lemma_best_two_hop_maximises(pools, n - 1, token_in, token_out, amount_in);
        let (best, route) = best_two_hop(pools, n - 1, token_in, token_out, amount_in);
        let k: u64 = (n - 1) as u64;
        assert forall|i: u64| 0 <= i < n && two_hop(pools, i, token_in, token_out) is Some
            implies #[trigger] candidate_route(pools, i, token_in, token_out, amount_in).expected_output
                <= best_two_hop(pools, n, token_in, token_out, amount_in).0 by {
            if i < n - 1 {
                assert(candidate_route(pools, i, token_in, token_out, amount_in).expected_output <= best);
            } else {
                assert(i == k);
            }
        }
        if two_hop(pools, k, token_in, token_out) is Some && candidate_route(pools, k, token_in, token_out, amount_in).expected_output > best {
            assert(candidate_route(pools, k, token_in, token_out, amount_in) == best_two_hop(pools, n, token_in, token_out, amount_in).1->0);
        } else if route is Some {
            let v = route->0;
            let j: u64 = choose|i: u64| 0 <= i < n - 1 && two_hop(pools, i, token_in, token_out) is Some
                && #[trigger] candidate_route(pools, i, token_in, token_out, amount_in) == v;
            assert(0 <= j < n && two_hop(pools, j, token_in, token_out) is Some
                && candidate_route(pools, j, token_in, token_out, amount_in) == v);
        }
    }
}

/// Route search picks the best route: when the pair has no pool of its own,
/// the route found has an output at least that of every two-hop candidate
/// (and is one of them); when none is found, no candidate has a positive
/// output.
pub proof fn lemma_best_route_maximises(pools: Seq<LiquidityPool>, next: u64, token_in: TokenId, token_out: TokenId, amount_in: i128)
    requires
        direct_pool(pools, token_in, token_out) is None,
    ensures
        forall|i: u64| i < next && two_hop(pools, i, token_in, token_out) is Some ==> {
            let c = #[trigger] candidate_route(pools, i, token_in, token_out, amount_in);
            &&& best_route(pools, next, token_in, token_out, amount_in) matches Some(v) ==> c.expected_output <= v.expected_output
            &&& best_route(pools, next, token_in, token_out, amount_in) is None ==> c.expected_output <= 0
        },
        best_route(pools, next, token_in, token_out, amount_in) matches Some(v) ==> v.expected_output > 0
            && exists|i: u64| i < next && two_hop(pools, i, token_in, token_out) is Some
                && #[trigger] candidate_route(pools, i, token_in, token_out, amount_in) == v,
{
    lemma_best_two_hop_maximises(pools, next as int, token_in, token_out, amount_in);
}

/// A successful swap of `amount_in` of `token_in` through pool `p` that
/// paid `out` and left the pool as `after`.
pub open spec fn swap_done(p: LiquidityPool, token_in: TokenId, amount_in: i128, out: i128, after: LiquidityPool) -> bool {
    &&& amount_in > 0
    &&& (token_in == p.token_a || token_in == p.token_b)
    &&& output_fits(p, token_in, amount_in)
    &&& out == output_of(p, token_in, amount_in)
    &&& swap_add_fits(p, token_in, amount_in)
    &&& swap_sub_fits(p, token_in, out)
    &&& after == if token_in == p.token_a {
        LiquidityPool { reserve_a: (p.reserve_a + amount_in) as i128, reserve_b: (p.reserve_b - out) as i128, ..p }
    } else {
        LiquidityPool { reserve_b: (p.reserve_b + amount_in) as i128, reserve_a: (p.reserve_a - out) as i128, ..p }
    }
}

/// A swap pays out of the reserve of the other token: with `r_in` the
/// reserve of the token paid in, `r_out` that of the token paid out and
/// `f = amount_in * (10000 - fee) / 10000`, the output is the largest `out`
/// with `out * (r_in + f) <= r_out * f`; it is at most `r_out`, the pool
/// gains the input on the paid-in side and loses the output on the other,
/// and the product of the reserves does not fall.
pub proof fn lemma_swap_pays_from_other_reserve(p: LiquidityPool, token_in: TokenId, amount_in: i128, out: i128, after: LiquidityPool)
    requires
        swap_done(p, token_in, amount_in, out, after),
        p.reserve_a >= 0,
        p.reserve_b >= 0,
        p.fee_tier <= 10000,
    ensures
        ({
            let rin: int = if token_in == p.token_a { p.reserve_a as int } else { p.reserve_b as int };
            let rout: int = if token_in == p.token_a { p.reserve_b as int } else { p.reserve_a as int };
            let new_in: int = if token_in == p.token_a { after.reserve_a as int } else { after.reserve_b as int };
            let new_out: int = if token_in == p.token_a { after.reserve_b as int } else { after.reserve_a as int };
            let f: int = amount_in * (10000 - p.fee_tier) / 10000;
            &&& 0 <= out <= rout
            &&& out * (rin + f) <= rout * f
            &&& rout * f < (out + 1) * (rin + f)
            &&& new_in == rin + amount_in
            &&& new_out == rout - out
            &&& new_in * new_out >= rin * rout
        }),
{
    let rin: int = if token_in == p.token_a { p.reserve_a as int } else { p.reserve_b as int };
    let rout: int = if token_in == p.token_a { p.reserve_b as int } else { p.reserve_a as int };
    let f: int = amount_in * (10000 - p.fee_tier) / 10000;
    assert((amount_in as u128) as int == amount_in as int);
    assert((rin as u128) as int == rin);
    assert((rout as u128) as int == rout);
    assert(fee_adjusted_input(p, amount_in) == f);
    assert(0 <= f <= amount_in) by (nonlinear_arith)
        requires amount_in > 0, p.fee_tier <= 10000, f == amount_in * (10000 - p.fee_tier) / 10000;
    let d: int = rin + f;
    assert(d > 0);
    let q: int = rout * f / d;
    assert(q * d <= rout * f && rout * f < (q + 1) * d) by (nonlinear_arith)
        requires d > 0, q == rout * f / d;
    assert(0 <= q <= rout) by (nonlinear_arith)
        requires d > 0, q * d <= rout * f, f <= d, rout >= 0, f >= 0, rout * f < (q + 1) * d;
    assert(((rout as u128) * fee_adjusted_input(p, amount_in) / ((rin as u128) + fee_adjusted_input(p, amount_in))) == q);
    assert((q as u128) as i128 == q);
    assert(out == q);
    lemma_swap_keeps_product(rin, rout, amount_in as int, p.fee_tier as int);
    assert((rin + amount_in) * (rout - out) >= rin * rout);
}

/// A swap never decreases the product of the reserves: with non-negative
/// reserves and a positive input, `(r_in + a) * (r_out - out) >= r_in * r_out`.
pub proof fn lemma_swap_keeps_product(rin: int, rout: int, amount_in: int, fee_tier: int)
    requires
        0 <= rin,
        0 <= rout,
        amount_in > 0,
        0 <= fee_tier <= 10000,
        rin + amount_in * (10000 - fee_tier) / 10000 > 0,
    ensures
        ({
            let fa = amount_in * (10000 - fee_tier) / 10000;
            let out = rout * fa / (rin + fa);
            &&& 0 <= out <= rout
            &&& (rin + amount_in) * (rout - out) >= rin * rout
        }),
{
    let fa = amount_in * (10000 - fee_tier) / 10000;
    assert(0 <= fa <= amount_in) by (nonlinear_arith)
        requires amount_in > 0, 0 <= fee_tier <= 10000, fa == amount_in * (10000 - fee_tier) / 10000;
    let d = rin + fa;
    let out = rout * fa / d;
    assert(out * d <= rout * fa) by (nonlinear_arith)
        requires d > 0, out == rout * fa / d, rout >= 0, fa >= 0;
    assert(0 <= out) by (nonlinear_arith)
        requires d > 0, out == rout * fa / d, rout >= 0, fa >= 0;
    assert(out <= rout) by (nonlinear_arith)
        requires d > 0, out * d <= rout * fa, fa <= d, rout >= 0, out >= 0;
    assert(d * (rout - out) >= rin * rout) by (nonlinear_arith)
        requires out * d <= rout * fa, d == rin + fa;
    assert((rin + amount_in) * (rout - out) >= d * (rout - out)) by (nonlinear_arith)
        requires rin + amount_in >= d, rout - out >= 0;
}

} // verus!
