//! Price oracle: stored prices per token pair, which move only when a new
//! price differs from the stored one by more than a tolerance, and a
//! decentralized oracle that takes the median of its feeds as consensus.
use vstd::prelude::*;
use vstd::relations::{sorted_by, total_ordering};
use vstd::seq_lib::{to_multiset_insert, lemma_sorted_unique};
use crate::liquidity_pool::TokenId;

verus! {

/// A token pair: base and quote token.
pub type TokenPair = (TokenId, TokenId);

/// Tolerance (in basis points) of a pair without one of its own.
pub const DEFAULT_PRICE_UPDATE_TOLERANCE_BPS: u32 = 10;

/// Errors of the price oracle.
#[derive(Clone, Copy, Debug, PartialEq, Eq, Structural)]
pub enum ContractError {
    InvalidPrice,
    StalePrice,
    SlippageExceeded,
    PriceNotSet,
}

/// Numeric code of an error.
pub open spec fn contract_error_code(e: ContractError) -> u32 {
    match e {
        ContractError::InvalidPrice => 1,
        ContractError::StalePrice => 2,
        ContractError::SlippageExceeded => 3,
        ContractError::PriceNotSet => 4,
    }
}

impl ContractError {
    /// Numeric code of the error.
    pub fn code(&self) -> (c: u32)
        ensures
            c == contract_error_code(*self),
    {
        match self {
            ContractError::InvalidPrice => 1,
            ContractError::StalePrice => 2,
            ContractError::SlippageExceeded => 3,
            ContractError::PriceNotSet => 4,
        }
    }
}

/// A price and the time it was recorded.
#[derive(Clone, Copy, Debug, PartialEq, Eq, Structural)]
pub struct PriceData {
    pub price: u128,
    pub timestamp: u64,
}

/// Current value of a pair in a log of records: its latest record.
pub open spec fn pair_latest<V>(s: Seq<(TokenPair, V)>, pair: TokenPair) -> Option<V>
    decreases s.len(),
{
    if s.len() == 0 {
        None
    } else if s.last().0 == pair {
        Some(s.last().1)
    } else {
        pair_latest(s.drop_last(), pair)
    }
}

/// Current value of a pair in a log.
fn find_pair<V: Copy>(log: &Vec<(TokenPair, V)>, pair: TokenPair) -> (r: Option<V>)
    ensures
        r == pair_latest(log@, pair),
{
    let mut i: usize = log.len();
    proof {
        assert(log@.take(log@.len() as int) == log@);
    }
    while i > 0
        invariant
            i <= log.len(),
            pair_latest(log@, pair) == pair_latest(log@.take(i as int), pair),
        decreases i,
    {
        proof {
            assert(log@.take(i as int).drop_last() == log@.take(i as int - 1));
            assert(log@.take(i as int).last() == log@[i - 1]);
        }
        let e = log[i - 1];
        if e.0.0 == pair.0 && e.0.1 == pair.1 {
            return Some(e.1);
        }
        i = i - 1;
    }
    None
}

/// Appending a record makes it the pair's current value and keeps every
/// other pair's.
pub proof fn lemma_pair_latest_push<V>(s: Seq<(TokenPair, V)>, pair: TokenPair, v: V)
    ensures
        pair_latest(s.push((pair, v)), pair) == Some(v),
        forall|p: TokenPair| p != pair ==> #[trigger] pair_latest(s.push((pair, v)), p) == pair_latest(s, p),
{
    assert(s.push((pair, v)).drop_last() == s);
}

/// Oracle storage: stored prices and tolerance settings, each a log whose
/// latest record of a pair is the pair's value.
pub struct PriceStore {
    pub prices: Vec<(TokenPair, PriceData)>,
    pub tolerances: Vec<(TokenPair, u32)>,
}

/// Tolerance of a pair: its own setting, else the default.
pub open spec fn tolerance_of(store: PriceStore, pair: TokenPair) -> u32 {
    match pair_latest(store.tolerances@, pair) {
        Some(b) => b,
        None => DEFAULT_PRICE_UPDATE_TOLERANCE_BPS,
    }
}

/// Stored price of a pair.
pub open spec fn stored_price(store: PriceStore, pair: TokenPair) -> Option<PriceData> {
    pair_latest(store.prices@, pair)
}

/// Whether a new price moves far enough from the last one to be stored: the
/// last price is 0, or the distance exceeds `last * tolerance / 10000`, the
/// product saturating at `u128::MAX`.
pub open spec fn exceeds_tolerance(last_price: u128, new_price: u128, tolerance_bps: u32) -> bool {
    let delta: int = if new_price >= last_price { new_price - last_price } else { last_price - new_price };
    let product: int = last_price * tolerance_bps;
    let capped: int = if product > u128::MAX { u128::MAX as int } else { product };
    last_price == 0 || delta > capped / 10000
}

/// Whether `set_stored_price` stores `price` for `pair`.
pub open spec fn price_is_stored(store: PriceStore, pair: TokenPair, price: u128) -> bool {
    match stored_price(store, pair) {
        None => true,
        Some(d) => exceeds_tolerance(d.price, price, tolerance_of(store, pair)),
    }
}

/// Whether a new price differs from the last one by more than the tolerance.
pub fn price_delta_exceeds_tolerance(last_price: u128, new_price: u128, tolerance_bps: u32) -> (r: bool)
    ensures
        r == exceeds_tolerance(last_price, new_price, tolerance_bps),
{
    if last_price == 0 {
        return true;
    }
    let delta: u128 = if new_price >= last_price { new_price - last_price } else { last_price - new_price };
    let product: u128 = match last_price.checked_mul(tolerance_bps as u128) {
        Some(v) => v,
        None => u128::MAX,
    };
    let threshold: u128 = product / 10_000;
    delta > threshold
}

impl PriceStore {
    /// An empty store.
    pub fn new() -> (s: Self)
        ensures
            s.prices@.len() == 0,
            s.tolerances@.len() == 0,
    {
        PriceStore { prices: Vec::new(), tolerances: Vec::new() }
    }
}

/// Tolerance of a pair in basis points (10 unless set).
pub fn get_price_update_tolerance_bps(store: &PriceStore, pair: TokenPair) -> (r: u32)
    ensures
        r == tolerance_of(*store, pair),
{
    match find_pair(&store.tolerances, pair) {
        Some(b) => b,
        None => DEFAULT_PRICE_UPDATE_TOLERANCE_BPS,
    }
}

/// Sets the tolerance of a pair.
pub fn set_price_update_tolerance_bps(store: &mut PriceStore, pair: TokenPair, bps: u32)
    ensures
        final(store).tolerances@ == old(store).tolerances@.push((pair, bps)),
        final(store).prices@ == old(store).prices@,
        tolerance_of(*final(store), pair) == bps,
        forall|p: TokenPair| p != pair ==> #[trigger] tolerance_of(*final(store), p) == tolerance_of(*old(store), p),
{
    store.tolerances.push((pair, bps));
    proof {
        lemma_pair_latest_push(old(store).tolerances@, pair, bps);
    }
}

/// Stored price of a pair, if any.
pub fn get_stored_price(store: &PriceStore, pair: TokenPair) -> (r: Option<PriceData>)
    ensures
        r == stored_price(*store, pair),
{
    find_pair(&store.prices, pair)
}

/// Records `price` for `pair` at time `now` when the pair has no price yet
/// or the price moved beyond the pair's tolerance; otherwise keeps the
/// stored price and its time.
pub fn set_stored_price(store: &mut PriceStore, pair: TokenPair, price: u128, now: u64)
    ensures
        final(store).tolerances@ == old(store).tolerances@,
        price_is_stored(*old(store), pair, price) ==> final(store).prices@ == old(store).prices@.push(
            (pair, PriceData { price, timestamp: now }),
        ),
        !price_is_stored(*old(store), pair, price) ==> final(store).prices@ == old(store).prices@,
        stored_price(*final(store), pair) == if price_is_stored(*old(store), pair, price) {
            Some(PriceData { price, timestamp: now })
        } else {
            stored_price(*old(store), pair)
        },
        forall|p: TokenPair| p != pair ==> #[trigger] stored_price(*final(store), p) == stored_price(*old(store), p),
{
    let existing = get_stored_price(store, pair);
    let should_persist = match existing {
        None => true,
        Some(data) => price_delta_exceeds_tolerance(data.price, price, get_price_update_tolerance_bps(store, pair)),
    };
    if should_persist {
        store.prices.push((pair, PriceData { price, timestamp: now }));
        proof {
            lemma_pair_latest_push(old(store).prices@, pair, PriceData { price, timestamp: now });
        }
    }
}

/// Stored price of a pair, or `PriceNotSet`.
pub fn get_price_safe(store: &PriceStore, pair: TokenPair) -> (r: Result<u128, ContractError>)
    ensures
        match stored_price(*store, pair) {
            Some(d) => r == Ok::<u128, ContractError>(d.price),
            None => r == Err::<u128, ContractError>(ContractError::PriceNotSet),
        },
{
    match get_stored_price(store, pair) {
        Some(data) => Ok(data.price),
        None => Err(ContractError::PriceNotSet),
    }
}

/// Storing a price for a pair that has none makes it the pair's price,
/// and a read of any other pair is unchanged.
pub proof fn lemma_first_price_is_stored(store: PriceStore, pair: TokenPair, price: u128)
    requires
        stored_price(store, pair) is None,
    ensures
        price_is_stored(store, pair, price),
{
}

/// A price within the tolerance of the stored one is never stored.
pub proof fn lemma_small_move_keeps_price(store: PriceStore, pair: TokenPair, price: u128)
    requires
        stored_price(store, pair) matches Some(d) && d.price > 0 && (
            if price >= d.price { price - d.price } else { d.price - price }
        ) * 10000 <= d.price * tolerance_of(store, pair),
        stored_price(store, pair)->0.price * tolerance_of(store, pair) <= u128::MAX,
    ensures
        !price_is_stored(store, pair, price),
{
    let d = stored_price(store, pair)->0;
    let t = tolerance_of(store, pair);
    let delta: int = if price >= d.price { price - d.price } else { d.price - price };
    assert(delta <= (d.price * t) / 10000) by (nonlinear_arith)
        requires
            delta * 10000 <= d.price * t,
            delta >= 0,
    ;
}

/// One price feed: the prices it was given, per pair, in order.
pub struct FeedProvider {
    pub submissions: Vec<(TokenPair, PriceData)>,
}

/// Prices given for a pair in a log of submissions, in order.
pub open spec fn pair_prices(s: Seq<(TokenPair, PriceData)>, pair: TokenPair) -> Seq<u128>
    decreases s.len(),
{
    if s.len() == 0 {
        Seq::empty()
    } else if s.last().0 == pair {
        pair_prices(s.drop_last(), pair).push(s.last().1.price)
    } else {
        pair_prices(s.drop_last(), pair)
    }
}

/// The last `n` elements of a sequence (all of them when it is shorter).
pub open spec fn last_n<A>(s: Seq<A>, n: int) -> Seq<A> {
    if n >= s.len() { s } else { s.subrange(s.len() - n, s.len() as int) }
}

impl FeedProvider {
    /// A feed with no prices.
    pub fn new() -> (f: Self)
        ensures
            f.submissions@.len() == 0,
    {
        FeedProvider { submissions: Vec::new() }
    }

    /// Records a price for a pair.
    pub fn submit_price(&mut self, token_pair: TokenPair, price: u128, timestamp: u64)
        ensures
            final(self).submissions@ == old(self).submissions@.push((token_pair, PriceData { price, timestamp })),
    {
        self.submissions.push((token_pair, PriceData { price, timestamp }));
    }

    /// Latest price given for a pair.
    pub fn get_price(&self, token_pair: TokenPair) -> (r: Option<u128>)
        ensures
            r == match pair_latest(self.submissions@, token_pair) {
                Some(d) => Some(d.price),
                None => None::<u128>,
            },
    {
        match find_pair(&self.submissions, token_pair) {
            Some(d) => Some(d.price),
            None => None,
        }
    }

    /// The last `lookback_periods` prices given for a pair, oldest first.
    pub fn get_price_history(&self, token_pair: TokenPair, lookback_periods: usize) -> (r: Vec<u128>)
        ensures
            r@ == last_n(pair_prices(self.submissions@, token_pair), lookback_periods as int),
    {
        let mut all: Vec<u128> = Vec::new();
        let mut i: usize = 0;
        while i < self.submissions.len()
            invariant
                i <= self.submissions.len(),
                all@ == pair_prices(self.submissions@.take(i as int), token_pair),
            decreases self.submissions.len() - i,
        {
            proof {
                assert(self.submissions@.take(i as int + 1).drop_last() == self.submissions@.take(i as int));
            }
            let e = self.submissions[i];
            if e.0.0 == token_pair.0 && e.0.1 == token_pair.1 {
                all.push(e.1.price);
            }
            i = i + 1;
        }
        proof {
            assert(self.submissions@.take(self.submissions@.len() as int) == self.submissions@);
        }
        if lookback_periods >= all.len() {
            return all;
        }
        let start: usize = all.len() - lookback_periods;
        let mut out: Vec<u128> = Vec::new();
        let mut j: usize = start;
        while j < all.len()
            invariant
                start <= j <= all.len(),
                start == all.len() - lookback_periods,
                out@ == all@.subrange(start as int, j as int),
            decreases all.len() - j,
        {
            out.push(all[j]);
            j = j + 1;
        }
        out
    }
}

/// A set of price feeds agreeing on prices by their median.
pub struct DecentralizedOracle {
    pub feeds: Vec<FeedProvider>,
}

/// The price each feed holds for a pair, in feed order, skipping feeds
/// that hold none.
pub open spec fn feed_prices_of(feeds: Seq<FeedProvider>, pair: TokenPair) -> Seq<u128>
    decreases feeds.len(),
{
    if feeds.len() == 0 {
        Seq::empty()
    } else {
        let rest = feed_prices_of(feeds.drop_last(), pair);
        match pair_latest(feeds.last().submissions@, pair) {
            Some(d) => rest.push(d.price),
            None => rest,
        }
    }
}

/// Price histories of all feeds for a pair, feed after feed.
pub open spec fn feed_histories_of(feeds: Seq<FeedProvider>, pair: TokenPair, n: int) -> Seq<u128>
    decreases feeds.len(),
{
    if feeds.len() == 0 {
        Seq::empty()
    } else {
        feed_histories_of(feeds.drop_last(), pair, n) + last_n(pair_prices(feeds.last().submissions@, pair), n)
    }
}

/// Order of prices.
pub open spec fn price_leq() -> spec_fn(u128, u128) -> bool {
    |a: u128, b: u128| a <= b
}

/// Upper median of a list of prices: the middle element once sorted.
pub open spec fn median_of(prices: Seq<u128>) -> u128 {
    prices.sort_by(price_leq())[prices.len() as int / 2]
}

/// Sum of prices.
pub open spec fn sum_of(prices: Seq<u128>) -> int
    decreases prices.len(),
{
    if prices.len() == 0 { 0 } else { sum_of(prices.drop_last()) + prices.last() }
}

/// Sum of squared distances of prices to `mean`.
pub open spec fn square_dev_sum(prices: Seq<u128>, mean: int) -> int
    decreases prices.len(),
{
    if prices.len() == 0 {
        0
    } else {
        square_dev_sum(prices.drop_last(), mean) + (prices.last() - mean) * (prices.last() - mean)
    }
}

/// Indices of prices farther than `5 * std_dev` from `mean`.
pub open spec fn far_indices(prices: Seq<u128>, mean: u128, std_dev: u128) -> Seq<usize>
    decreases prices.len(),
{
    if prices.len() == 0 {
        Seq::empty()
    } else {
        let rest = far_indices(prices.drop_last(), mean, std_dev);
        let d: int = prices.last() - mean;
        let dist: int = if d < 0 { -d } else { d };
        if dist > 5 * std_dev { rest.push((prices.len() - 1) as usize) } else { rest }
    }
}

proof fn lemma_price_leq_total()
    ensures
        total_ordering(price_leq()),
{
}

/// Inserts `x` into a sorted vector, keeping it sorted.
fn insert_sorted(v: &mut Vec<u128>, x: u128)
    requires
        sorted_by(old(v)@, price_leq()),
    ensures
        sorted_by(final(v)@, price_leq()),
        final(v)@.to_multiset() == old(v)@.to_multiset().insert(x),
        final(v)@.len() == old(v)@.len() + 1,
{
    let mut pos: usize = 0;
    while pos < v.len() && v[pos] <= x
        invariant
            pos <= v.len(),
            forall|k: int| 0 <= k < pos ==> v@[k] <= x,
        decreases v.len() - pos,
    {
        pos = pos + 1;
    }
    let ghost before = v@;
    v.insert(pos, x);
    proof {
        to_multiset_insert(before, pos as int, x);
        assert forall|i: int, j: int| 0 <= i < j < v@.len() implies #[trigger] price_leq()(v@[i], v@[j]) by {
            if i < pos && j < pos {
                assert(price_leq()(before[i], before[j]));
            } else if i < pos && j == pos {
            } else if i < pos {
                assert(price_leq()(before[i], before[j - 1]));
            } else if i == pos {
                assert(pos < before.len());
                assert(price_leq()(before[pos as int], before[j - 1]) || j - 1 == pos);
            } else {
                assert(price_leq()(before[i - 1], before[j - 1]));
            }
        }
    }
}

/// Sorts prices in ascending order.
fn sort_prices(prices: &Vec<u128>) -> (s: Vec<u128>)
    ensures
        s@.len() == prices@.len(),
        s@ == prices@.sort_by(price_leq()),
{
    let mut s: Vec<u128> = Vec::new();
    let mut i: usize = 0;
    assert(s@ =~= prices@.take(0));
    while i < prices.len()
        invariant
            i <= prices.len(),
            s@.len() == i,
            sorted_by(s@, price_leq()),
            s@.to_multiset() == prices@.take(i as int).to_multiset(),
        decreases prices.len() - i,
    {
        insert_sorted(&mut s, prices[i]);
        proof {
            assert(prices@.take(i as int + 1) == prices@.take(i as int).push(prices@[i as int]));
            vstd::seq_lib::to_multiset_build(prices@.take(i as int), prices@[i as int]);
        }
        i = i + 1;
    }
    proof {
        assert(prices@.take(prices@.len() as int) == prices@);
        lemma_price_leq_total();
        prices@.lemma_sort_by_ensures(price_leq());
        lemma_sorted_unique(s@, prices@.sort_by(price_leq()), price_leq());
    }
    s
}

impl DecentralizedOracle {
    /// An oracle with no feeds.
    pub fn new() -> (o: Self)
        ensures
            o.feeds@.len() == 0,
    {
        DecentralizedOracle { feeds: Vec::new() }
    }

    /// Adds a feed; its index is the number of feeds before it.
    pub fn register_feed(&mut self, feed: FeedProvider)
        ensures
            final(self).feeds@ == old(self).feeds@.push(feed),
    {
        self.feeds.push(feed);
    }

    /// Gives a price to feed `feed_id`; does nothing when there is no such feed.
    pub fn submit_price(&mut self, feed_id: usize, token_pair: TokenPair, price: u128, timestamp: u64)
        ensures
            feed_id < old(self).feeds@.len() ==> {
                &&& final(self).feeds@.len() == old(self).feeds@.len()
                &&& final(self).feeds@[feed_id as int].submissions@ == old(self).feeds@[feed_id as int].submissions@.push(
                    (token_pair, PriceData { price, timestamp }),
                )
                &&& forall|k: int| 0 <= k < old(self).feeds@.len() && k != feed_id ==> #[trigger] final(self).feeds@[k] == old(self).feeds@[k]
            },
            feed_id >= old(self).feeds@.len() ==> final(self).feeds@ == old(self).feeds@,
    {
        if feed_id < self.feeds.len() {
            let mut feed = self.feeds.remove(feed_id);
            feed.submit_price(token_pair, price, timestamp);
            self.feeds.insert(feed_id, feed);
        }
    }

    /// The price each feed holds for a pair, in feed order.
    pub fn feed_prices(&self, token_pair: TokenPair) -> (r: Vec<u128>)
        ensures
            r@ == feed_prices_of(self.feeds@, token_pair),
    {
        let mut out: Vec<u128> = Vec::new();
        let mut i: usize = 0;
        while i < self.feeds.len()
            invariant
                i <= self.feeds.len(),
                out@ == feed_prices_of(self.feeds@.take(i as int), token_pair),
            decreases self.feeds.len() - i,
        {
            proof {
                assert(self.feeds@.take(i as int + 1).drop_last() == self.feeds@.take(i as int));
            }
            match self.feeds[i].get_price(token_pair) {
                Some(p) => out.push(p),
                None => {},
            }
            i = i + 1;
        }
        proof {
            assert(self.feeds@.take(self.feeds@.len() as int) == self.feeds@);
        }
        out
    }

    /// Consensus price of a pair: the upper median of the feeds' prices,
    /// or `None` when no feed holds one.
    pub fn get_consensus_price(&self, token_pair: TokenPair) -> (r: Option<u128>)
        ensures
            feed_prices_of(self.feeds@, token_pair).len() == 0 ==> r is None,
            feed_prices_of(self.feeds@, token_pair).len() > 0 ==> r == Some(median_of(feed_prices_of(self.feeds@, token_pair))),
    {
        let prices = self.feed_prices(token_pair);
        if prices.len() == 0 {
            return None;
        }
        let sorted = sort_prices(&prices);
        Some(sorted[prices.len() / 2])
    }

    /// Price histories of all feeds for a pair, feed after feed.
    pub fn get_price_history(&self, token_pair: TokenPair, lookback_periods: usize) -> (r: Vec<u128>)
        ensures
            r@ == feed_histories_of(self.feeds@, token_pair, lookback_periods as int),
    {
        let mut out: Vec<u128> = Vec::new();
        let mut i: usize = 0;
        while i < self.feeds.len()
            invariant
                i <= self.feeds.len(),
                out@ == feed_histories_of(self.feeds@.take(i as int), token_pair, lookback_periods as int),
            decreases self.feeds.len() - i,
        {
            proof {
                assert(self.feeds@.take(i as int + 1).drop_last() == self.feeds@.take(i as int));
            }
            let mut h = self.feeds[i].get_price_history(token_pair, lookback_periods);
            out.append(&mut h);
            i = i + 1;
        }
        proof {
            assert(self.feeds@.take(self.feeds@.len() as int) == self.feeds@);
        }
        out
    }
}

/// A sum of prices each at most `b` is at most `len * b`.
proof fn lemma_sum_bound(s: Seq<u128>, b: int)
    requires
        forall|k: int| 0 <= k < s.len() ==> #[trigger] s[k] <= b,
    ensures
        sum_of(s) <= s.len() * b,
    decreases s.len(),
{
    if s.len() > 0 {
        lemma_sum_bound(s.drop_last(), b);
        assert(s.last() <= b);
        assert(sum_of(s) <= (s.len() - 1) * b + b);
        assert((s.len() - 1) * b + b == s.len() * b) by (nonlinear_arith);
    }
}

/// Whether mean and variance of prices can be taken in 128 bits: there is
/// at least one price, every price fits `i128`, the sum fits `u128`, and
/// every squared deviation from the mean fits `i128` and their sum `u128`.
pub open spec fn mean_variance_fits(prices: Seq<u128>) -> bool {
    let mean: int = sum_of(prices) / prices.len() as int;
    &&& prices.len() > 0
    &&& forall|k: int| 0 <= k < prices.len() ==> #[trigger] prices[k] <= i128::MAX
    &&& forall|k: int| 0 <= k <= prices.len() ==> #[trigger] sum_of(prices.take(k)) <= u128::MAX
    &&& forall|k: int| 0 <= k < prices.len() ==> (#[trigger] prices[k] - mean) * (prices[k] - mean) <= i128::MAX
    &&& forall|k: int| 0 <= k <= prices.len() ==> #[trigger] square_dev_sum(prices.take(k), mean) <= u128::MAX
}

/// Mean of prices (rounded down) and the mean squared deviation from it
/// (rounded down); `None` when they cannot be taken in 128 bits.
pub fn price_mean_variance(prices: &Vec<u128>) -> (r: Option<(u128, u128)>)
    ensures
        !mean_variance_fits(prices@) ==> r is None,
        mean_variance_fits(prices@) ==> r == Some((
            (sum_of(prices@) / prices@.len() as int) as u128,
            (square_dev_sum(prices@, sum_of(prices@) / prices@.len() as int) / prices@.len() as int) as u128,
        )),
{
    let n = prices.len();
    if n == 0 {
        return None;
    }
    let mut sum: u128 = 0;
    let mut i: usize = 0;
    while i < n
        invariant
            n == prices.len(),
            i <= n,
            sum == sum_of(prices@.take(i as int)),
            forall|k: int| 0 <= k < i ==> #[trigger] prices@[k] <= i128::MAX,
            forall|k: int| 0 <= k <= i ==> #[trigger] sum_of(prices@.take(k)) <= u128::MAX,
        decreases n - i,
    {
        proof {
            assert(prices@.take(i as int + 1).drop_last() == prices@.take(i as int));
        }
        let p = prices[i];
        if p > i128::MAX as u128 {
            proof {
                assert(prices@[i as int] > i128::MAX);
            }
            return None;
        }
        match sum.checked_add(p) {
            Some(t) => { sum = t; },
            None => {
                proof {
                    assert(sum_of(prices@.take(i as int + 1)) > u128::MAX);
                }
                return None;
            },
        }
        i = i + 1;
        proof {
            assert forall|k: int| 0 <= k <= i implies #[trigger] sum_of(prices@.take(k)) <= u128::MAX by {
                if k == i {
                } else {
                }
            }
        }
    }
    proof {
        assert(prices@.take(n as int) == prices@);
    }
    let mean: u128 = sum / (n as u128);
    let ghost m: int = mean as int;
    proof {
        lemma_sum_bound(prices@, i128::MAX as int);
        assert(m <= i128::MAX) by (nonlinear_arith)
            requires m == sum_of(prices@) / prices@.len() as int, prices@.len() > 0,
                sum_of(prices@) <= prices@.len() * (i128::MAX as int);
    }
    assert(m == sum_of(prices@) / prices@.len() as int);
    let mut acc: u128 = 0;
    let mut j: usize = 0;
    while j < n
        invariant
            n == prices.len(),
            n > 0,
            j <= n,
            mean as int == m,
            m <= i128::MAX,
            m == sum_of(prices@) / prices@.len() as int,
            forall|k: int| 0 <= k < n ==> #[trigger] prices@[k] <= i128::MAX,
            acc == square_dev_sum(prices@.take(j as int), m),
            forall|k: int| 0 <= k < j ==> (#[trigger] prices@[k] - m) * (prices@[k] - m) <= i128::MAX,
            forall|k: int| 0 <= k <= j ==> #[trigger] square_dev_sum(prices@.take(k), m) <= u128::MAX,
        decreases n - j,
    {
        proof {
            assert(prices@.take(j as int + 1).drop_last() == prices@.take(j as int));
        }
        let d: i128 = prices[j] as i128 - mean as i128;
        assert(d == prices@[j as int] - m);
        assert(d * d >= 0) by (nonlinear_arith);
        let sq = d.checked_mul(d);
        match sq {
            None => {
                proof {
                    assert((prices@[j as int] - m) * (prices@[j as int] - m) > i128::MAX);
                }
                return None;
            },
            Some(q) => {
                assert(q >= 0) by (nonlinear_arith)
                    requires q == d * d;
                match acc.checked_add(q as u128) {
                    Some(t) => { acc = t; },
                    None => {
                        proof {
                            assert(square_dev_sum(prices@.take(j as int + 1), m) > u128::MAX);
                        }
                        return None;
                    },
                }
            },
        }
        j = j + 1;
    }
    proof {
        assert(prices@.take(n as int) == prices@);
        assert(m <= sum_of(prices@)) by (nonlinear_arith)
            requires m == sum_of(prices@) / prices@.len() as int, prices@.len() > 0, sum_of(prices@) >= 0;
    }
    Some((mean, acc / (n as u128)))
}

/// Indices of the prices farther than `5 * std_dev` from `mean`, in order.
pub fn anomalous_indices(prices: &Vec<u128>, mean: u128, std_dev: u128) -> (r: Vec<usize>)
    requires
        mean <= i128::MAX,
        5 * std_dev <= u128::MAX,
        forall|k: int| 0 <= k < prices@.len() ==> #[trigger] prices@[k] <= i128::MAX,
    ensures
        r@ == far_indices(prices@, mean, std_dev),
{
    let mut out: Vec<usize> = Vec::new();
    let mut i: usize = 0;
    let bound: u128 = 5 * std_dev;
    while i < prices.len()
        invariant
            i <= prices.len(),
            mean <= i128::MAX,
            bound == 5 * std_dev,
            forall|k: int| 0 <= k < prices@.len() ==> #[trigger] prices@[k] <= i128::MAX,
            out@ == far_indices(prices@.take(i as int), mean, std_dev),
        decreases prices.len() - i,
    {
        proof {
            assert(prices@.take(i as int + 1).drop_last() == prices@.take(i as int));
        }
        let d: i128 = prices[i] as i128 - mean as i128;
        let dist: u128 = if d < 0 { (-d) as u128 } else { d as u128 };
        if dist > bound {
            out.push(i);
        }
        i = i + 1;
    }
    proof {
        assert(prices@.take(prices@.len() as int) == prices@);
    }
    out
}

/// The consensus price is one of the feeds' prices, and at least as many
/// prices lie at or below it as above it.
pub proof fn lemma_median_is_a_feed_price(prices: Seq<u128>)
    requires
        prices.len() > 0,
    ensures
        prices.contains(median_of(prices)),
        forall|i: int| 0 <= i < prices.len() / 2 ==> #[trigger] prices.sort_by(price_leq())[i] <= median_of(prices),
        forall|i: int| prices.len() / 2 <= i < prices.len() ==> median_of(prices) <= #[trigger] prices.sort_by(price_leq())[i],
{
    lemma_price_leq_total();
    prices.lemma_sort_by_ensures(price_leq());
    let s = prices.sort_by(price_leq());
    let k = prices.len() as int / 2;
    prices.to_multiset_ensures();
    s.to_multiset_ensures();
    assert(s.len() == prices.len());
    assert(s.contains(s[k]));
    assert(s.to_multiset().count(s[k]) > 0);
    assert(prices.to_multiset().count(s[k]) > 0);
    assert(prices.contains(s[k]));
    assert forall|i: int| 0 <= i < k implies #[trigger] s[i] <= s[k] by {
        assert(price_leq()(s[i], s[k]));
    }
    assert forall|i: int| k <= i < prices.len() implies s[k] <= #[trigger] s[i] by {
        if i > k {
            assert(price_leq()(s[k], s[i]));
        }
    }
}

} // verus!
