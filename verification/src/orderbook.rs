//! Order book of one symbol. Prices and quantities are integer ticks: a
//! price is held as `round(price * 10^price_precision)` and a quantity as
//! `round(quantity * 10^quantity_precision)`. Each side keeps one level
//! per price, in ascending price order; the best bid is the highest bid
//! and the best ask the lowest ask.
use vstd::prelude::*;

verus! {

/// Quantity resting at one price.
#[derive(Clone, Copy, Debug, PartialEq, Eq, Structural)]
pub struct PriceLevel {
    pub price: u64,
    pub quantity: u64,
    pub orders_count: u32,
}

/// What an update does to a price level.
#[derive(Clone, Copy, Debug, PartialEq, Eq, Structural)]
pub enum UpdateAction {
    Add,
    Update,
    Remove,
}

/// A change to one price level.
#[derive(Clone, Copy, Debug, PartialEq, Eq, Structural)]
pub struct PriceLevelUpdate {
    pub price: u64,
    pub quantity: u64,
    pub action: UpdateAction,
}

/// A batch of level changes with its sequence id.
pub struct OrderBookUpdate {
    pub symbol: Vec<u8>,
    pub last_update_id: u64,
    pub bids: Vec<PriceLevelUpdate>,
    pub asks: Vec<PriceLevelUpdate>,
    /// Time of the update (milliseconds since the epoch)
    pub timestamp: i64,
}

/// Best levels of both sides: bids best first (descending), asks best
/// first (ascending).
pub struct OrderBookData {
    pub bids: Vec<PriceLevel>,
    pub asks: Vec<PriceLevel>,
    pub last_update_id: u64,
}

/// Best levels of both sides and their total quantities.
pub struct MarketDepth {
    pub bids: Vec<PriceLevel>,
    pub asks: Vec<PriceLevel>,
    pub bid_volume: u128,
    pub ask_volume: u128,
}

/// Summary of a book.
#[derive(Clone, Copy, Debug, PartialEq, Eq, Structural)]
pub struct OrderBookStats {
    pub total_bid_volume: u128,
    pub total_ask_volume: u128,
    pub bid_levels: usize,
    pub ask_levels: usize,
    /// Best ask minus best bid; 0 when a side is empty
    pub spread: i128,
    pub best_bid: Option<u64>,
    pub best_ask: Option<u64>,
}

/// Depth limit and tick precisions of books.
#[derive(Clone, Copy, Debug, PartialEq, Eq, Structural)]
pub struct OrderBookAggregator {
    pub max_depth: usize,
    pub price_precision: u8,
    pub quantity_precision: u8,
}

/// Errors of order book operations.
#[derive(Clone, Copy, Debug, PartialEq, Eq, Structural)]
pub enum OrderBookError {
    /// The update's id is not newer than the book's.
    StaleUpdate,
    NoBids,
    NoAsks,
}

/// The order book of one symbol.
pub struct OrderBook {
    pub symbol: Vec<u8>,
    /// Bid levels in ascending price order
    pub bids: Vec<PriceLevel>,
    /// Ask levels in ascending price order
    pub asks: Vec<PriceLevel>,
    pub last_update_id: u64,
    pub sequence: u64,
    /// Time of the last update (milliseconds since the epoch)
    pub last_updated: i64,
}

/// Levels in strictly ascending price order (so one level per price).
pub open spec fn ascending(s: Seq<PriceLevel>) -> bool {
    forall|i: int, j: int| 0 <= i < j < s.len() ==> #[trigger] s[i].price < #[trigger] s[j].price
}

/// Whether a side has a level at price `p`.
pub open spec fn has_price(s: Seq<PriceLevel>, p: u64) -> bool {
    exists|i: int| 0 <= i < s.len() && #[trigger] s[i].price == p
}

/// The level of a side at price `p`, if any.
pub open spec fn level_at(s: Seq<PriceLevel>, p: u64) -> Option<PriceLevel> {
    if has_price(s, p) {
        Some(s[choose|i: int| 0 <= i < s.len() && #[trigger] s[i].price == p])
    } else {
        None
    }
}

/// The level a side holds at a price after one update: a positive
/// quantity added or updated sets the level (one order); anything else
/// removes it.
pub open spec fn level_after(u: PriceLevelUpdate) -> Option<PriceLevel> {
    match u.action {
        UpdateAction::Remove => None,
        _ => if u.quantity > 0 {
            Some(PriceLevel { price: u.price, quantity: u.quantity, orders_count: 1 })
        } else {
            None
        },
    }
}

/// A side after one update: the update's price holds `level_after`, every
/// other price is unchanged.
pub open spec fn applied(old_side: Seq<PriceLevel>, new_side: Seq<PriceLevel>, u: PriceLevelUpdate) -> bool {
    &&& ascending(new_side)
    &&& forall|p: u64| #[trigger] level_at(new_side, p) == if p == u.price { level_after(u) } else { level_at(old_side, p) }
}

/// A side after a batch of updates applied in order: each price holds what
/// its last update in the batch sets, or its old level if no update names it.
pub open spec fn level_after_all(old_side: Seq<PriceLevel>, us: Seq<PriceLevelUpdate>, p: u64) -> Option<PriceLevel>
    decreases us.len(),
{
    if us.len() == 0 {
        level_at(old_side, p)
    } else if us.last().price == p {
        level_after(us.last())
    } else {
        level_after_all(old_side, us.drop_last(), p)
    }
}

/// The best `depth` levels of a side kept in ascending order: the highest
/// (for bids) are the last ones.
pub open spec fn keep_highest(s: Seq<PriceLevel>, depth: int) -> Seq<PriceLevel> {
    if s.len() > depth { s.subrange(s.len() - depth, s.len() as int) } else { s }
}

/// The lowest `depth` levels of a side.
pub open spec fn keep_lowest(s: Seq<PriceLevel>, depth: int) -> Seq<PriceLevel> {
    if s.len() > depth { s.take(depth) } else { s }
}

/// The first `n` bids best first: the highest prices, descending.
pub open spec fn top_bids(s: Seq<PriceLevel>, n: int) -> Seq<PriceLevel> {
    let k = if n < s.len() { n } else { s.len() as int };
    Seq::new(k as nat, |i: int| s[s.len() - 1 - i])
}

/// The first `n` asks best first: the lowest prices, ascending.
pub open spec fn top_asks(s: Seq<PriceLevel>, n: int) -> Seq<PriceLevel> {
    if n < s.len() { s.take(n) } else { s }
}

/// Total quantity of a list of levels.
pub open spec fn total_quantity(s: Seq<PriceLevel>) -> int
    decreases s.len(),
{
    if s.len() == 0 { 0 } else { total_quantity(s.drop_last()) + s.last().quantity }
}

/// Total quantity of levels priced at or above `p`.
pub open spec fn quantity_at_or_above(s: Seq<PriceLevel>, p: u64) -> int
    decreases s.len(),
{
    if s.len() == 0 {
        0
    } else {
        quantity_at_or_above(s.drop_last(), p) + if s.last().price >= p { s.last().quantity as int } else { 0int }
    }
}

/// Total quantity of levels priced at or below `p`.
pub open spec fn quantity_at_or_below(s: Seq<PriceLevel>, p: u64) -> int
    decreases s.len(),
{
    if s.len() == 0 {
        0
    } else {
        quantity_at_or_below(s.drop_last(), p) + if s.last().price <= p { s.last().quantity as int } else { 0int }
    }
}

/// A book whose sides are each in strictly ascending price order.
pub open spec fn book_wf(b: OrderBook) -> bool {
    ascending(b.bids@) && ascending(b.asks@)
}

/// In an ascending side, the level at an index is the level of its price.
pub proof fn lemma_level_at_index(s: Seq<PriceLevel>, i: int)
    requires
        ascending(s),
        0 <= i < s.len(),
    ensures
        level_at(s, s[i].price) == Some(s[i]),
{
    let p = s[i].price;
    assert(has_price(s, p));
    let j = choose|j: int| 0 <= j < s.len() && #[trigger] s[j].price == p;
    if j < i {
        assert(s[j].price < s[i].price);
    } else if j > i {
        assert(s[i].price < s[j].price);
    }
}

/// Total quantity of `n` levels is below `n * 2^64`.
proof fn lemma_total_bound(s: Seq<PriceLevel>)
    ensures
        0 <= total_quantity(s) <= s.len() * 0xffff_ffff_ffff_ffff,
    decreases s.len(),
{
    if s.len() > 0 {
        lemma_total_bound(s.drop_last());
        assert((s.len() - 1) * 0xffff_ffff_ffff_ffffint + 0xffff_ffff_ffff_ffffint == s.len() * 0xffff_ffff_ffff_ffffint)
            by (nonlinear_arith);
    }
}

/// Partial sums of quantities by price stay below the total.
proof fn lemma_filtered_bounds(s: Seq<PriceLevel>, p: u64)
    ensures
        0 <= quantity_at_or_above(s, p) <= total_quantity(s),
        0 <= quantity_at_or_below(s, p) <= total_quantity(s),
    decreases s.len(),
{
    if s.len() > 0 {
        lemma_filtered_bounds(s.drop_last(), p);
    }
}

/// Sets or removes one price level of an ascending side.
fn update_price_level(side: &mut Vec<PriceLevel>, u: PriceLevelUpdate)
    requires
        ascending(old(side)@),
    ensures
        applied(old(side)@, final(side)@, u),
{
    let ghost s = side@;
    let mut i: usize = 0;
    while i < side.len() && side[i].price < u.price
        invariant
            side@ == s,
            i <= s.len(),
            forall|k: int| 0 <= k < i ==> #[trigger] s[k].price < u.price,
        decreases s.len() - i,
    {
        i = i + 1;
    }
    let found = i < side.len() && side[i].price == u.price;
    let level = match u.action {
        UpdateAction::Remove => None,
        _ => if u.quantity > 0 {
            Some(PriceLevel { price: u.price, quantity: u.quantity, orders_count: 1 })
        } else {
            None
        },
    };
    assert(level == level_after(u));
    match level {
        Some(l) => {
            if found {
                side.set(i, l);
            } else {
                side.insert(i, l);
            }
        },
        None => {
            if found {
                side.remove(i);
            }
        },
    }
    proof {
        let t = side@;
        // order below i, at i and above i
        assert forall|a: int, b: int| 0 <= a < b < t.len() implies #[trigger] t[a].price < #[trigger] t[b].price by {
            if found {
                if level is Some {
                    if a < i as int && b == i as int {
                    } else if a == i as int {
                        assert(s[i as int].price < s[b].price);
                    } else {
                        assert(s[a].price < s[b].price);
                    }
                } else {
                    assert(s[if a < i as int { a } else { a + 1 }].price < s[b + 1].price);
                }
            } else if level is Some {
                if b < i as int {
                    assert(s[a].price < s[b].price);
                } else if b == i as int {
                } else if a == i as int {
                    assert(s[b - 1].price > u.price || i as int == b - 1 || s[i as int].price > u.price);
                    assert(s[i as int].price <= s[b - 1].price);
                } else if a < i as int {
                    assert(s[a].price < s[b - 1].price);
                } else {
                    assert(s[a - 1].price < s[b - 1].price);
                }
            } else {
                assert(s[a].price < s[b].price);
            }
        }
        assert(ascending(t));
        assert forall|p: u64| #[trigger] level_at(t, p) == if p == u.price { level_after(u) } else { level_at(s, p) } by {
            if p == u.price {
                if level is Some {
                    lemma_level_at_index(t, i as int);
                } else {
                    if has_price(t, p) {
                        let k = choose|k: int| 0 <= k < t.len() && #[trigger] t[k].price == p;
                        if found {
                            if k < i as int {
                                assert(s[k].price == p);
                            } else {
                                assert(s[k + 1].price == p);
                                assert(s[i as int].price < s[k + 1].price);
                            }
                        } else {
                            if k < i as int {
                                assert(s[k].price == p);
                            } else {
                                assert(s[k].price == p);
                                assert(s[i as int].price <= s[k].price);
                                assert(i as int == k || s[i as int].price < s[k].price);
                            }
                        }
                    }
                }
            } else {
                if has_price(s, p) {
                    let k = choose|k: int| 0 <= k < s.len() && #[trigger] s[k].price == p;
                    lemma_level_at_index(s, k);
                    let k2: int = if k < i as int {
                        k
                    } else if found && level is None {
                        k - 1
                    } else if !found && level is Some {
                        k + 1
                    } else {
                        k
                    };
                    if found && level is None {
                        assert(k != i as int);
                    }
                    assert(t[k2] == s[k]);
                    lemma_level_at_index(t, k2);
                } else {
                    if has_price(t, p) {
                        let k = choose|k: int| 0 <= k < t.len() && #[trigger] t[k].price == p;
                        let k0: int = if k < i as int {
                            k
                        } else if found && level is None {
                            k + 1
                        } else if !found && level is Some {
                            k - 1
                        } else {
                            k
                        };
                        if !(k == i as int && level is Some) {
                            assert(s[k0].price == p);
                        }
                    }
                }
            }
        }
    }
}

/// Applies a batch of level updates to an ascending side, in order.
fn update_price_levels(side: &mut Vec<PriceLevel>, updates: &Vec<PriceLevelUpdate>)
    requires
        ascending(old(side)@),
    ensures
        ascending(final(side)@),
        forall|p: u64| #[trigger] level_at(final(side)@, p) == level_after_all(old(side)@, updates@, p),
{
    let ghost s0 = side@;
    let mut j: usize = 0;
    while j < updates.len()
        invariant
            j <= updates.len(),
            ascending(side@),
            forall|p: u64| #[trigger] level_at(side@, p) == level_after_all(s0, updates@.take(j as int), p),
        decreases updates.len() - j,
    {
        let ghost before = side@;
        update_price_level(side, updates[j]);
        proof {
            assert(updates@.take(j as int + 1).drop_last() == updates@.take(j as int));
            assert(updates@.take(j as int + 1).last() == updates@[j as int]);
            assert forall|p: u64| #[trigger] level_at(side@, p) == level_after_all(s0, updates@.take(j as int + 1), p) by {
                assert(level_at(side@, p) == if p == updates@[j as int].price {
                    level_after(updates@[j as int])
                } else {
                    level_at(before, p)
                });
            }
        }
        j = j + 1;
    }
    proof {
        assert(updates@.take(updates@.len() as int) == updates@);
    }
}

impl OrderBookAggregator {
    /// Settings with a depth limit and tick precisions.
    pub fn new(max_depth: usize, price_precision: u8, quantity_precision: u8) -> (a: Self)
        ensures
            a == (OrderBookAggregator { max_depth, price_precision, quantity_precision }),
    {
        OrderBookAggregator { max_depth, price_precision, quantity_precision }
    }
}

impl OrderBook {
    /// An empty book created at time `now`.
    pub fn new(symbol: Vec<u8>, now: i64) -> (b: Self)
        ensures
            b.symbol@ == symbol@,
            b.bids@.len() == 0,
            b.asks@.len() == 0,
            b.last_update_id == 0,
            b.sequence == 0,
            b.last_updated == now,
            book_wf(b),
    {
        OrderBook { symbol, bids: Vec::new(), asks: Vec::new(), last_update_id: 0, sequence: 0, last_updated: now }
    }

    /// Applies an update: a stale one (id not newer than the book's) is
    /// refused and leaves the book unchanged; otherwise bid and ask changes
    /// are applied in order, the book takes the update's id and time, its
    /// sequence grows by one, and each side keeps only its best
    /// `max_depth` levels.
    pub fn update(&mut self, update: &OrderBookUpdate, aggregator: &OrderBookAggregator) -> (r: Result<(), OrderBookError>)
        requires
            book_wf(*old(self)),
            old(self).sequence < u64::MAX,
        ensures
            book_wf(*final(self)),
            final(self).symbol@ == old(self).symbol@,
            update.last_update_id <= old(self).last_update_id ==> {
                &&& r == Err::<(), OrderBookError>(OrderBookError::StaleUpdate)
                &&& final(self).bids@ == old(self).bids@
                &&& final(self).asks@ == old(self).asks@
                &&& final(self).last_update_id == old(self).last_update_id
                &&& final(self).sequence == old(self).sequence
                &&& final(self).last_updated == old(self).last_updated
            },
            update.last_update_id > old(self).last_update_id ==> {
                &&& r == Ok::<(), OrderBookError>(())
                &&& final(self).last_update_id == update.last_update_id
                &&& final(self).sequence == old(self).sequence + 1
                &&& final(self).last_updated == update.timestamp
                &&& exists|bids: Seq<PriceLevel>, asks: Seq<PriceLevel>| {
                    &&& ascending(bids)
                    &&& ascending(asks)
                    &&& (forall|p: u64| #[trigger] level_at(bids, p) == level_after_all(old(self).bids@, update.bids@, p))
                    &&& (forall|p: u64| #[trigger] level_at(asks, p) == level_after_all(old(self).asks@, update.asks@, p))
                    &&& final(self).bids@ == keep_highest(bids, aggregator.max_depth as int)
                    &&& final(self).asks@ == keep_lowest(asks, aggregator.max_depth as int)
                }
            },
    {
        if update.last_update_id <= self.last_update_id {
            return Err(OrderBookError::StaleUpdate);
        }
        update_price_levels(&mut self.bids, &update.bids);
        update_price_levels(&mut self.asks, &update.asks);
        let ghost bids = self.bids@;
        let ghost asks = self.asks@;
        self.last_update_id = update.last_update_id;
        self.sequence = self.sequence + 1;
        self.last_updated = update.timestamp;
        self.maintain_depth(aggregator.max_depth);
        proof {
            assert(ascending(bids) && ascending(asks));
        }
        Ok(())
    }

    /// Drops the lowest bids and the highest asks beyond `max_depth` levels.
    fn maintain_depth(&mut self, max_depth: usize)
        requires
            book_wf(*old(self)),
        ensures
            book_wf(*final(self)),
            final(self).bids@ == keep_highest(old(self).bids@, max_depth as int),
            final(self).asks@ == keep_lowest(old(self).asks@, max_depth as int),
            final(self).symbol@ == old(self).symbol@,
            final(self).last_update_id == old(self).last_update_id,
            final(self).sequence == old(self).sequence,
            final(self).last_updated == old(self).last_updated,
    {
        if self.bids.len() > max_depth {
            let start: usize = self.bids.len() - max_depth;
            let mut kept: Vec<PriceLevel> = Vec::new();
            let mut i: usize = start;
            while i < self.bids.len()
                invariant
                    start <= i <= self.bids.len(),
                    start == self.bids.len() - max_depth,
                    kept@ == self.bids@.subrange(start as int, i as int),
                decreases self.bids.len() - i,
            {
                kept.push(self.bids[i]);
                i = i + 1;
            }
            self.bids = kept;
        }
        if self.asks.len() > max_depth {
            let mut kept: Vec<PriceLevel> = Vec::new();
            let mut i: usize = 0;
            while i < max_depth
                invariant
                    i <= max_depth,
                    max_depth < self.asks.len(),
                    kept@ == self.asks@.take(i as int),
                decreases max_depth - i,
            {
                kept.push(self.asks[i]);
                i = i + 1;
            }
            self.asks = kept;
        }
    }

    /// The best `depth` levels of each side, best first.
    pub fn get_snapshot(&self, depth: usize) -> (d: OrderBookData)
        ensures
            d.bids@ == top_bids(self.bids@, depth as int),
            d.asks@ == top_asks(self.asks@, depth as int),
            d.last_update_id == self.last_update_id,
    {
        let bids = Self::best_bids(&self.bids, depth);
        let asks = Self::best_asks(&self.asks, depth);
        OrderBookData { bids, asks, last_update_id: self.last_update_id }
    }

    /// The `n` highest bids, descending.
    fn best_bids(side: &Vec<PriceLevel>, n: usize) -> (r: Vec<PriceLevel>)
        ensures
            r@ == top_bids(side@, n as int),
    {
        let k: usize = if n < side.len() { n } else { side.len() };
        let mut out: Vec<PriceLevel> = Vec::new();
        let mut i: usize = 0;
        while i < k
            invariant
                k <= side.len(),
                k == if n < side.len() { n } else { side.len() },
                i <= k,
                out@.len() == i,
                forall|j: int| 0 <= j < i ==> out@[j] == side@[side@.len() - 1 - j],
            decreases k - i,
        {
            out.push(side[side.len() - 1 - i]);
            i = i + 1;
        }
        assert(out@ =~= top_bids(side@, n as int));
        out
    }

    /// The `n` lowest asks, ascending.
    fn best_asks(side: &Vec<PriceLevel>, n: usize) -> (r: Vec<PriceLevel>)
        ensures
            r@ == top_asks(side@, n as int),
    {
        let k: usize = if n < side.len() { n } else { side.len() };
        let mut out: Vec<PriceLevel> = Vec::new();
        let mut i: usize = 0;
        while i < k
            invariant
                k <= side.len(),
                k == if n < side.len() { n } else { side.len() },
                i <= k,
                out@ == side@.take(i as int),
            decreases k - i,
        {
            out.push(side[i]);
            i = i + 1;
        }
        proof {
            if n >= side@.len() {
                assert(side@.take(side@.len() as int) == side@);
            }
        }
        out
    }

    /// Best ask minus best bid, in price ticks.
    pub fn get_spread(&self) -> (r: Result<i128, OrderBookError>)
        ensures
            self.bids@.len() == 0 ==> r == Err::<i128, OrderBookError>(OrderBookError::NoBids),
            self.bids@.len() > 0 && self.asks@.len() == 0 ==> r == Err::<i128, OrderBookError>(OrderBookError::NoAsks),
            self.bids@.len() > 0 && self.asks@.len() > 0 ==> r == Ok::<i128, OrderBookError>(
                (self.asks@[0].price - self.bids@.last().price) as i128,
            ),
    {
        if self.bids.len() == 0 {
            return Err(OrderBookError::NoBids);
        }
        if self.asks.len() == 0 {
            return Err(OrderBookError::NoAsks);
        }
        let best_bid = self.bids[self.bids.len() - 1].price;
        let best_ask = self.asks[0].price;
        Ok((best_ask as i128) - (best_bid as i128))
    }

    /// Best bid price and quantity, then best ask price and quantity.
    pub fn get_best_bid_ask(&self) -> (r: Result<(u64, u64, u64, u64), OrderBookError>)
        ensures
            self.bids@.len() == 0 ==> r == Err::<(u64, u64, u64, u64), OrderBookError>(OrderBookError::NoBids),
            self.bids@.len() > 0 && self.asks@.len() == 0 ==> r == Err::<(u64, u64, u64, u64), OrderBookError>(
                OrderBookError::NoAsks,
            ),
            self.bids@.len() > 0 && self.asks@.len() > 0 ==> r == Ok::<(u64, u64, u64, u64), OrderBookError>(
                (self.bids@.last().price, self.bids@.last().quantity, self.asks@[0].price, self.asks@[0].quantity),
            ),
    {
        if self.bids.len() == 0 {
            return Err(OrderBookError::NoBids);
        }
        if self.asks.len() == 0 {
            return Err(OrderBookError::NoAsks);
        }
        let b = self.bids[self.bids.len() - 1];
        let a = self.asks[0];
        Ok((b.price, b.quantity, a.price, a.quantity))
    }

    /// Total quantity of a list of levels.
    fn sum_quantity(levels: &Vec<PriceLevel>) -> (r: u128)
        ensures
            r == total_quantity(levels@),
    {
        let mut total: u128 = 0;
        let mut i: usize = 0;
        while i < levels.len()
            invariant
                i <= levels.len(),
                total == total_quantity(levels@.take(i as int)),
            decreases levels.len() - i,
        {
            proof {
                assert(levels@.take(i as int + 1).drop_last() == levels@.take(i as int));
                lemma_total_bound(levels@.take(i as int + 1));
                assert((i + 1) * 0xffff_ffff_ffff_ffffint <= u128::MAX) by (nonlinear_arith)
                    requires i + 1 <= usize::MAX;
            }
            total = total + levels[i].quantity as u128;
            i = i + 1;
        }
        proof {
            assert(levels@.take(levels@.len() as int) == levels@);
        }
        total
    }

    /// The best `levels` levels of each side and their total quantities.
    pub fn get_market_depth(&self, levels: usize) -> (d: MarketDepth)
        ensures
            d.bids@ == top_bids(self.bids@, levels as int),
            d.asks@ == top_asks(self.asks@, levels as int),
            d.bid_volume == total_quantity(d.bids@),
            d.ask_volume == total_quantity(d.asks@),
    {
        let bids = Self::best_bids(&self.bids, levels);
        let asks = Self::best_asks(&self.asks, levels);
        let bid_volume = Self::sum_quantity(&bids);
        let ask_volume = Self::sum_quantity(&asks);
        MarketDepth { bids, asks, bid_volume, ask_volume }
    }

    /// Quantity available at or better than `price`: bids at or above it
    /// and asks at or below it (saturating at `u128::MAX`).
    pub fn calculate_volume_at_price(&self, price: u64) -> (r: u128)
        ensures
            r == if quantity_at_or_above(self.bids@, price) + quantity_at_or_below(self.asks@, price) > u128::MAX {
                u128::MAX as int
            } else {
                quantity_at_or_above(self.bids@, price) + quantity_at_or_below(self.asks@, price)
            },
    {
        let mut bid_total: u128 = 0;
        let mut i: usize = 0;
        while i < self.bids.len()
            invariant
                i <= self.bids.len(),
                bid_total == quantity_at_or_above(self.bids@.take(i as int), price),
            decreases self.bids.len() - i,
        {
            proof {
                let t = self.bids@.take(i as int + 1);
                assert(t.drop_last() == self.bids@.take(i as int));
                lemma_filtered_bounds(t, price);
                lemma_total_bound(t);
                assert((i + 1) * 0xffff_ffff_ffff_ffffint <= u128::MAX) by (nonlinear_arith)
                    requires i + 1 <= usize::MAX;
            }
            if self.bids[i].price >= price {
                bid_total = bid_total + self.bids[i].quantity as u128;
            }
            i = i + 1;
        }
        let mut ask_total: u128 = 0;
        let mut j: usize = 0;
        while j < self.asks.len()
            invariant
                j <= self.asks.len(),
                ask_total == quantity_at_or_below(self.asks@.take(j as int), price),
            decreases self.asks.len() - j,
        {
            proof {
                let t = self.asks@.take(j as int + 1);
                assert(t.drop_last() == self.asks@.take(j as int));
                lemma_filtered_bounds(t, price);
                lemma_total_bound(t);
                assert((j + 1) * 0xffff_ffff_ffff_ffffint <= u128::MAX) by (nonlinear_arith)
                    requires j + 1 <= usize::MAX;
            }
            if self.asks[j].price <= price {
                ask_total = ask_total + self.asks[j].quantity as u128;
            }
            j = j + 1;
        }
        proof {
            assert(self.bids@.take(self.bids@.len() as int) == self.bids@);
            assert(self.asks@.take(self.asks@.len() as int) == self.asks@);
            lemma_filtered_bounds(self.bids@, price);
            lemma_filtered_bounds(self.asks@, price);
            lemma_total_bound(self.bids@);
            lemma_total_bound(self.asks@);
        }
        match bid_total.checked_add(ask_total) {
            Some(v) => v,
            None => u128::MAX,
        }
    }

    /// Totals, level counts, spread (0 when a side is empty) and best prices.
    pub fn get_stats(&self) -> (s: OrderBookStats)
        ensures
            s.total_bid_volume == total_quantity(self.bids@),
            s.total_ask_volume == total_quantity(self.asks@),
            s.bid_levels == self.bids@.len(),
            s.ask_levels == self.asks@.len(),
            s.best_bid == if self.bids@.len() > 0 { Some(self.bids@.last().price) } else { None::<u64> },
            s.best_ask == if self.asks@.len() > 0 { Some(self.asks@[0].price) } else { None::<u64> },
            s.spread == if self.bids@.len() > 0 && self.asks@.len() > 0 {
                self.asks@[0].price - self.bids@.last().price
            } else {
                0
            },
    {
        let total_bid_volume = Self::sum_quantity(&self.bids);
        let total_ask_volume = Self::sum_quantity(&self.asks);
        let spread: i128 = match self.get_spread() {
            Ok(v) => v,
            Err(_) => 0,
        };
        let best_bid = if self.bids.len() > 0 { Some(self.bids[self.bids.len() - 1].price) } else { None };
        let best_ask = if self.asks.len() > 0 { Some(self.asks[0].price) } else { None };
        OrderBookStats {
            total_bid_volume,
            total_ask_volume,
            bid_levels: self.bids.len(),
            ask_levels: self.asks.len(),
            spread,
            best_bid,
            best_ask,
        }
    }
}

/// The best bid of an ascending side is its highest price.
pub proof fn lemma_best_bid_is_highest(s: Seq<PriceLevel>)
    requires
        ascending(s),
        s.len() > 0,
    ensures
        forall|i: int| 0 <= i < s.len() ==> s[i].price <= #[trigger] s.last().price,
{
    assert forall|i: int| 0 <= i < s.len() implies s[i].price <= #[trigger] s.last().price by {
        if i < s.len() - 1 {
            assert(s[i].price < s[s.len() - 1].price);
        }
    }
}

/// Errors of the book registry.
#[derive(Clone, Copy, Debug, PartialEq, Eq, Structural)]
pub enum OrderBookManagerError {
    /// No book for the symbol.
    NotFound,
    /// The book refused the operation.
    Book(OrderBookError),
}

/// Order books by symbol, with shared depth and precision settings.
pub struct OrderBookManager {
    pub orderbooks: Vec<OrderBook>,
    pub aggregator: OrderBookAggregator,
}

/// Index of the first book with the symbol, if any.
pub open spec fn book_index(books: Seq<OrderBook>, symbol: Seq<u8>) -> Option<int>
    decreases books.len(),
{
    if books.len() == 0 {
        None
    } else {
        match book_index(books.drop_last(), symbol) {
            Some(i) => Some(i),
            None => if books.last().symbol@ == symbol { Some(books.len() - 1) } else { None },
        }
    }
}

/// Every book is well formed.
pub open spec fn books_wf(books: Seq<OrderBook>) -> bool {
    forall|i: int| 0 <= i < books.len() ==> #[trigger] book_wf(books[i])
}

/// Whether two byte strings are equal.
pub fn bytes_equal(a: &Vec<u8>, b: &Vec<u8>) -> (r: bool)
    ensures
        r == (a@ == b@),
{
    if a.len() != b.len() {
        return false;
    }
    let mut i: usize = 0;
    while i < a.len()
        invariant
            a@.len() == b@.len(),
            i <= a@.len(),
            forall|k: int| 0 <= k < i ==> a@[k] == b@[k],
        decreases a@.len() - i,
    {
        if a[i] != b[i] {
            return false;
        }
        i = i + 1;
    }
    assert(a@ =~= b@);
    true
}

impl OrderBookManager {
    /// A registry with no books.
    pub fn new(max_depth: usize, price_precision: u8, quantity_precision: u8) -> (m: Self)
        ensures
            m.orderbooks@.len() == 0,
            m.aggregator == (OrderBookAggregator { max_depth, price_precision, quantity_precision }),
    {
        OrderBookManager { orderbooks: Vec::new(), aggregator: OrderBookAggregator::new(max_depth, price_precision, quantity_precision) }
    }

    /// Index of the book of a symbol, if any.
    pub fn find(&self, symbol: &Vec<u8>) -> (r: Option<usize>)
        ensures
            r matches Some(i) ==> book_index(self.orderbooks@, symbol@) == Some(i as int),
            r is None ==> book_index(self.orderbooks@, symbol@) is None,
    {
        let mut i: usize = 0;
        while i < self.orderbooks.len()
            invariant
                i <= self.orderbooks@.len(),
                book_index(self.orderbooks@.take(i as int), symbol@) is None,
            decreases self.orderbooks@.len() - i,
        {
            proof {
                assert(self.orderbooks@.take(i as int + 1).drop_last() == self.orderbooks@.take(i as int));
            }
            if bytes_equal(&self.orderbooks[i].symbol, symbol) {
                proof {
                    lemma_book_index_prefix(self.orderbooks@, symbol@, i as int + 1);
                }
                return Some(i);
            }
            i = i + 1;
        }
        proof {
            assert(self.orderbooks@.take(self.orderbooks@.len() as int) == self.orderbooks@);
        }
        None
    }

    /// Index of the book of a symbol, created empty at time `now` when missing.
    pub fn get_or_create_orderbook(&mut self, symbol: &Vec<u8>, now: i64) -> (r: usize)
        requires
            books_wf(old(self).orderbooks@),
        ensures
            books_wf(final(self).orderbooks@),
            final(self).aggregator == old(self).aggregator,
            r < final(self).orderbooks@.len(),
            book_index(final(self).orderbooks@, symbol@) == Some(r as int),
            book_index(old(self).orderbooks@, symbol@) is Some ==> final(self).orderbooks@ == old(self).orderbooks@,
            book_index(old(self).orderbooks@, symbol@) is None ==> {
                &&& final(self).orderbooks@.len() == old(self).orderbooks@.len() + 1
                &&& final(self).orderbooks@.drop_last() == old(self).orderbooks@
                &&& final(self).orderbooks@.last().symbol@ == symbol@
                &&& final(self).orderbooks@.last().bids@.len() == 0
                &&& final(self).orderbooks@.last().asks@.len() == 0
                &&& final(self).orderbooks@.last().last_update_id == 0
                &&& final(self).orderbooks@.last().sequence == 0
                &&& final(self).orderbooks@.last().last_updated == now
            },
    {
        match self.find(symbol) {
            Some(i) => {
                proof {
                    lemma_book_index_bound(self.orderbooks@, symbol@);
                }
                i
            },
            None => {
                let mut copy: Vec<u8> = Vec::new();
                let mut k: usize = 0;
                while k < symbol.len()
                    invariant
                        k <= symbol@.len(),
                        copy@ == symbol@.take(k as int),
                    decreases symbol@.len() - k,
                {
                    copy.push(symbol[k]);
                    k = k + 1;
                }
                proof {
                    assert(symbol@.take(symbol@.len() as int) == symbol@);
                }
                let book = OrderBook::new(copy, now);
                let ghost before = self.orderbooks@;
                self.orderbooks.push(book);
                proof {
                    assert(self.orderbooks@.drop_last() == before);
                    assert forall|j: int| 0 <= j < self.orderbooks@.len() implies #[trigger] book_wf(self.orderbooks@[j]) by {
                        if j < before.len() {
                            assert(self.orderbooks@[j] == before[j]);
                        }
                    }
                }
                (self.orderbooks.len() - 1)
            },
        }
    }

    /// Applies an update to the book of a symbol, creating the book first
    /// if needed; the book's answer is passed on.
    pub fn update_orderbook(&mut self, symbol: &Vec<u8>, update: &OrderBookUpdate, now: i64) -> (r: Result<(), OrderBookManagerError>)
        requires
            books_wf(old(self).orderbooks@),
            forall|i: int| 0 <= i < old(self).orderbooks@.len() ==> #[trigger] old(self).orderbooks@[i].sequence < u64::MAX,
        ensures
            books_wf(final(self).orderbooks@),
            final(self).aggregator == old(self).aggregator,
            book_index(final(self).orderbooks@, symbol@) is Some,
            ({
                let idx = book_index(final(self).orderbooks@, symbol@)->0;
                let prev_id: u64 = match book_index(old(self).orderbooks@, symbol@) {
                    Some(k) => old(self).orderbooks@[k].last_update_id,
                    None => 0u64,
                };
                let prev_seq: u64 = match book_index(old(self).orderbooks@, symbol@) {
                    Some(k) => old(self).orderbooks@[k].sequence,
                    None => 0u64,
                };
                &&& final(self).orderbooks@.len() == old(self).orderbooks@.len() + if book_index(old(self).orderbooks@, symbol@) is Some { 0int } else { 1int }
                &&& forall|j: int| 0 <= j < old(self).orderbooks@.len() && j != idx ==> #[trigger] final(self).orderbooks@[j] == old(self).orderbooks@[j]
                &&& (r is Ok <==> update.last_update_id > prev_id)
                &&& r is Err ==> r == Err::<(), OrderBookManagerError>(OrderBookManagerError::Book(OrderBookError::StaleUpdate))
                &&& r is Ok ==> final(self).orderbooks@[idx].last_update_id == update.last_update_id
                    && final(self).orderbooks@[idx].sequence == prev_seq + 1
                &&& r is Ok ==> exists|bids: Seq<PriceLevel>, asks: Seq<PriceLevel>| #![trigger ascending(bids), ascending(asks)] {
                    let prev_bids = match book_index(old(self).orderbooks@, symbol@) {
                        Some(k) => old(self).orderbooks@[k].bids@,
                        None => Seq::<PriceLevel>::empty(),
                    };
                    let prev_asks = match book_index(old(self).orderbooks@, symbol@) {
                        Some(k) => old(self).orderbooks@[k].asks@,
                        None => Seq::<PriceLevel>::empty(),
                    };
                    &&& ascending(bids)
                    &&& ascending(asks)
                    &&& (forall|p: u64| #[trigger] level_at(bids, p) == level_after_all(prev_bids, update.bids@, p))
                    &&& (forall|p: u64| #[trigger] level_at(asks, p) == level_after_all(prev_asks, update.asks@, p))
                    &&& final(self).orderbooks@[idx].bids@ == keep_highest(bids, old(self).aggregator.max_depth as int)
                    &&& final(self).orderbooks@[idx].asks@ == keep_lowest(asks, old(self).aggregator.max_depth as int)
                }
            }),
    {
        let i = self.get_or_create_orderbook(symbol, now);
        let ghost books1 = self.orderbooks@;
        proof {
            assert forall|j: int| 0 <= j < books1.len() implies #[trigger] books1[j].sequence < u64::MAX by {
                if book_index(old(self).orderbooks@, symbol@) is None && j < old(self).orderbooks@.len() {
                    assert(books1.drop_last()[j] == books1[j]);
                }
            }
        }
        let mut book = self.orderbooks.remove(i);
        assert(book == books1[i as int]);
        let r = book.update(update, &self.aggregator);
        self.orderbooks.insert(i, book);
        proof {
            assert(self.orderbooks@ =~= books1.update(i as int, book));
            lemma_book_index_bound(old(self).orderbooks@, symbol@);
            lemma_book_index_same_symbols(books1, self.orderbooks@, symbol@);
            if book_index(old(self).orderbooks@, symbol@) is None {
                assert forall|j: int| 0 <= j < old(self).orderbooks@.len() && j != i as int implies #[trigger] self.orderbooks@[j] == old(self).orderbooks@[j] by {
                    assert(books1.drop_last()[j] == books1[j]);
                }
                assert(books1[i as int].bids@ == Seq::<PriceLevel>::empty());
                assert(books1[i as int].asks@ == Seq::<PriceLevel>::empty());
            } else {
                assert(books1 == old(self).orderbooks@);
            }
            assert(self.orderbooks@[i as int] == book);
            assert forall|j: int| 0 <= j < self.orderbooks@.len() implies #[trigger] book_wf(self.orderbooks@[j]) by {
                if j != i as int {
                    assert(self.orderbooks@[j] == books1[j]);
                }
            }
        }
        match r {
            Ok(()) => Ok(()),
            Err(e) => Err(OrderBookManagerError::Book(e)),
        }
    }
}

impl OrderBookManager {
    /// Best levels of a symbol's book, `depth` deep (the registry's depth
    /// limit when none is given).
    pub fn get_orderbook_snapshot(&self, symbol: &Vec<u8>, depth: Option<usize>) -> (r: Result<OrderBookData, OrderBookManagerError>)
        ensures
            book_index(self.orderbooks@, symbol@) is None ==> r matches Err(OrderBookManagerError::NotFound),
            book_index(self.orderbooks@, symbol@) matches Some(i) ==> r matches Ok(d) && ({
                let n: int = match depth { Some(k) => k as int, None => self.aggregator.max_depth as int };
                &&& d.bids@ == top_bids(self.orderbooks@[i].bids@, n)
                &&& d.asks@ == top_asks(self.orderbooks@[i].asks@, n)
                &&& d.last_update_id == self.orderbooks@[i].last_update_id
            }),
    {
        match self.find(symbol) {
            None => Err(OrderBookManagerError::NotFound),
            Some(i) => {
                proof {
                    lemma_book_index_bound(self.orderbooks@, symbol@);
                }
                let n: usize = match depth {
                    Some(k) => k,
                    None => self.aggregator.max_depth,
                };
                Ok(self.orderbooks[i].get_snapshot(n))
            },
        }
    }

    /// Spread of a symbol's book.
    pub fn get_spread(&self, symbol: &Vec<u8>) -> (r: Result<i128, OrderBookManagerError>)
        ensures
            book_index(self.orderbooks@, symbol@) is None ==> r == Err::<i128, OrderBookManagerError>(OrderBookManagerError::NotFound),
            book_index(self.orderbooks@, symbol@) matches Some(i) ==> ({
                let b = self.orderbooks@[i];
                &&& b.bids@.len() == 0 ==> r == Err::<i128, OrderBookManagerError>(OrderBookManagerError::Book(OrderBookError::NoBids))
                &&& b.bids@.len() > 0 && b.asks@.len() == 0 ==> r == Err::<i128, OrderBookManagerError>(
                    OrderBookManagerError::Book(OrderBookError::NoAsks),
                )
                &&& b.bids@.len() > 0 && b.asks@.len() > 0 ==> r == Ok::<i128, OrderBookManagerError>(
                    (b.asks@[0].price - b.bids@.last().price) as i128,
                )
            }),
    {
        match self.find(symbol) {
            None => Err(OrderBookManagerError::NotFound),
            Some(i) => {
                proof {
                    lemma_book_index_bound(self.orderbooks@, symbol@);
                }
                match self.orderbooks[i].get_spread() {
                    Ok(v) => Ok(v),
                    Err(e) => Err(OrderBookManagerError::Book(e)),
                }
            },
        }
    }

    /// Best bid and ask of a symbol's book.
    pub fn get_best_bid_ask(&self, symbol: &Vec<u8>) -> (r: Result<(u64, u64, u64, u64), OrderBookManagerError>)
        ensures
            book_index(self.orderbooks@, symbol@) is None ==> r == Err::<(u64, u64, u64, u64), OrderBookManagerError>(
                OrderBookManagerError::NotFound,
            ),
            book_index(self.orderbooks@, symbol@) matches Some(i) ==> ({
                let b = self.orderbooks@[i];
                &&& b.bids@.len() == 0 ==> r == Err::<(u64, u64, u64, u64), OrderBookManagerError>(
                    OrderBookManagerError::Book(OrderBookError::NoBids),
                )
                &&& b.bids@.len() > 0 && b.asks@.len() == 0 ==> r == Err::<(u64, u64, u64, u64), OrderBookManagerError>(
                    OrderBookManagerError::Book(OrderBookError::NoAsks),
                )
                &&& b.bids@.len() > 0 && b.asks@.len() > 0 ==> r == Ok::<(u64, u64, u64, u64), OrderBookManagerError>(
                    (b.bids@.last().price, b.bids@.last().quantity, b.asks@[0].price, b.asks@[0].quantity),
                )
            }),
    {
        match self.find(symbol) {
            None => Err(OrderBookManagerError::NotFound),
            Some(i) => {
                proof {
                    lemma_book_index_bound(self.orderbooks@, symbol@);
                }
                match self.orderbooks[i].get_best_bid_ask() {
                    Ok(v) => Ok(v),
                    Err(e) => Err(OrderBookManagerError::Book(e)),
                }
            },
        }
    }

    /// Best `levels` levels of a symbol's book with their volumes.
    pub fn get_market_depth(&self, symbol: &Vec<u8>, levels: usize) -> (r: Result<MarketDepth, OrderBookManagerError>)
        ensures
            book_index(self.orderbooks@, symbol@) is None ==> r matches Err(OrderBookManagerError::NotFound),
            book_index(self.orderbooks@, symbol@) matches Some(i) ==> r matches Ok(d) && ({
                &&& d.bids@ == top_bids(self.orderbooks@[i].bids@, levels as int)
                &&& d.asks@ == top_asks(self.orderbooks@[i].asks@, levels as int)
                &&& d.bid_volume == total_quantity(d.bids@)
                &&& d.ask_volume == total_quantity(d.asks@)
            }),
    {
        match self.find(symbol) {
            None => Err(OrderBookManagerError::NotFound),
            Some(i) => {
                proof {
                    lemma_book_index_bound(self.orderbooks@, symbol@);
                }
                Ok(self.orderbooks[i].get_market_depth(levels))
            },
        }
    }

    /// Quantity at or better than a price in a symbol's book.
    pub fn calculate_volume_at_price(&self, symbol: &Vec<u8>, price: u64) -> (r: Result<u128, OrderBookManagerError>)
        ensures
            book_index(self.orderbooks@, symbol@) is None ==> r == Err::<u128, OrderBookManagerError>(OrderBookManagerError::NotFound),
            book_index(self.orderbooks@, symbol@) matches Some(i) ==> r matches Ok(v) && ({
                let b = self.orderbooks@[i];
                let total = quantity_at_or_above(b.bids@, price) + quantity_at_or_below(b.asks@, price);
                v == if total > u128::MAX { u128::MAX as int } else { total }
            }),
    {
        match self.find(symbol) {
            None => Err(OrderBookManagerError::NotFound),
            Some(i) => {
                proof {
                    lemma_book_index_bound(self.orderbooks@, symbol@);
                }
                Ok(self.orderbooks[i].calculate_volume_at_price(price))
            },
        }
    }

    /// Summary of a symbol's book.
    pub fn get_orderbook_stats(&self, symbol: &Vec<u8>) -> (r: Result<OrderBookStats, OrderBookManagerError>)
        ensures
            book_index(self.orderbooks@, symbol@) is None ==> r == Err::<OrderBookStats, OrderBookManagerError>(
                OrderBookManagerError::NotFound,
            ),
            book_index(self.orderbooks@, symbol@) matches Some(i) ==> r matches Ok(st) && ({
                let b = self.orderbooks@[i];
                &&& st.total_bid_volume == total_quantity(b.bids@)
                &&& st.total_ask_volume == total_quantity(b.asks@)
                &&& st.bid_levels == b.bids@.len()
                &&& st.ask_levels == b.asks@.len()
                &&& st.best_bid == if b.bids@.len() > 0 { Some(b.bids@.last().price) } else { None::<u64> }
                &&& st.best_ask == if b.asks@.len() > 0 { Some(b.asks@[0].price) } else { None::<u64> }
                &&& st.spread == if b.bids@.len() > 0 && b.asks@.len() > 0 { b.asks@[0].price - b.bids@.last().price } else { 0 }
            }),
    {
        match self.find(symbol) {
            None => Err(OrderBookManagerError::NotFound),
            Some(i) => {
                proof {
                    lemma_book_index_bound(self.orderbooks@, symbol@);
                }
                Ok(self.orderbooks[i].get_stats())
            },
        }
    }
}

/// The first match in a prefix is the first match of the whole list.
proof fn lemma_book_index_prefix(books: Seq<OrderBook>, symbol: Seq<u8>, n: int)
    requires
        0 <= n <= books.len(),
        book_index(books.take(n), symbol) is Some,
    ensures
        book_index(books, symbol) == book_index(books.take(n), symbol),
    decreases books.len(),
{
    if n < books.len() {
        assert(books.drop_last().take(n) == books.take(n));
        lemma_book_index_prefix(books.drop_last(), symbol, n);
    } else {
        assert(books.take(n) == books);
    }
}

/// A found index lies within the list.
proof fn lemma_book_index_bound(books: Seq<OrderBook>, symbol: Seq<u8>)
    ensures
        book_index(books, symbol) matches Some(i) ==> 0 <= i < books.len() && books[i].symbol@ == symbol,
    decreases books.len(),
{
    if books.len() > 0 {
        lemma_book_index_bound(books.drop_last(), symbol);
    }
}

/// Replacing books by books with the same symbols keeps every lookup.
proof fn lemma_book_index_same_symbols(a: Seq<OrderBook>, b: Seq<OrderBook>, symbol: Seq<u8>)
    requires
        a.len() == b.len(),
        forall|j: int| 0 <= j < a.len() ==> #[trigger] a[j].symbol@ == b[j].symbol@,
    ensures
        book_index(a, symbol) == book_index(b, symbol),
    decreases a.len(),
{
    if a.len() > 0 {
        lemma_book_index_same_symbols(a.drop_last(), b.drop_last(), symbol);
        assert(a.last().symbol@ == b.last().symbol@);
    }
}

} // verus!
