//! Buffering and routing of incoming market data by aggregation rules: the
//! buffer keeps recent items (dropping the oldest 5000 once it passes
//! 10000), and every enabled rule passes on the buffered items of its
//! symbol, rule after rule. Items are named here by their symbol; the data
//! itself travels with the service that holds the buffer.
use vstd::prelude::*;

verus! {

/// Buffer length above which the oldest items are dropped.
pub const BUFFER_LIMIT: usize = 10000;

/// Number of oldest items dropped when the buffer is over its limit.
pub const BUFFER_TRIM: usize = 5000;

/// How a rule aggregates (every kind currently passes items through);
/// intervals in milliseconds.
#[derive(Clone, Copy, Debug, PartialEq, Eq, Structural)]
pub enum AggregationType {
    Tick,
    OHLCV(u64),
    VWAP(u64),
    TWAP(u64),
    VolumeProfile(u64),
}

/// Kind of a data source.
#[derive(Clone, Copy, Debug, PartialEq, Eq, Structural)]
pub enum SourceType {
    Exchange,
    MarketDataVendor,
    Internal,
    Test,
}

/// Health of a data source.
#[derive(Clone, Copy, Debug, PartialEq, Eq, Structural)]
pub enum HealthStatus {
    Healthy,
    Degraded,
    Unhealthy,
    Unknown,
}

/// A rule: which symbol it routes and how.
#[derive(Clone, Copy, Debug, PartialEq, Eq, Structural)]
pub struct AggregationRule {
    pub rule_type: AggregationType,
    pub symbol: u64,
    pub interval_ms: u64,
    pub enabled: bool,
}

/// Rules and the symbols of the buffered items, oldest first.
pub struct DataAggregator {
    pub source_id: u64,
    pub aggregation_rules: Vec<AggregationRule>,
    pub buffer: Vec<u64>,
}

/// What a processing step did: how many of the oldest buffered items were
/// dropped, and the buffer positions passed on, in output order.
pub struct AggregationOutput {
    pub dropped: usize,
    pub selected: Vec<usize>,
}

/// The buffer after appending new items and trimming.
pub open spec fn buffered(old_buffer: Seq<u64>, input: Seq<u64>) -> Seq<u64> {
    let b = old_buffer + input;
    if b.len() > BUFFER_LIMIT { b.skip(BUFFER_TRIM as int) } else { b }
}

/// Positions of the items of a symbol, in order.
pub open spec fn positions_of(buf: Seq<u64>, symbol: u64) -> Seq<usize>
    decreases buf.len(),
{
    if buf.len() == 0 {
        Seq::empty()
    } else if buf.last() == symbol {
        positions_of(buf.drop_last(), symbol).push((buf.len() - 1) as usize)
    } else {
        positions_of(buf.drop_last(), symbol)
    }
}

/// Positions passed on by the rules, rule after rule.
pub open spec fn routed(rules: Seq<AggregationRule>, buf: Seq<u64>) -> Seq<usize>
    decreases rules.len(),
{
    if rules.len() == 0 {
        Seq::empty()
    } else {
        routed(rules.drop_last(), buf) + if rules.last().enabled { positions_of(buf, rules.last().symbol) } else { Seq::empty() }
    }
}

impl DataAggregator {
    /// An aggregator with no rules and an empty buffer.
    pub fn new(source_id: u64) -> (a: Self)
        ensures
            a.source_id == source_id,
            a.aggregation_rules@.len() == 0,
            a.buffer@.len() == 0,
    {
        DataAggregator { source_id, aggregation_rules: Vec::new(), buffer: Vec::new() }
    }

    /// Adds a rule after the others.
    pub fn add_rule(&mut self, rule: AggregationRule)
        ensures
            final(self).aggregation_rules@ == old(self).aggregation_rules@.push(rule),
            final(self).buffer@ == old(self).buffer@,
            final(self).source_id == old(self).source_id,
    {
        self.aggregation_rules.push(rule);
    }

    /// Positions of the buffered items of a symbol.
    fn positions(buf: &Vec<u64>, symbol: u64) -> (r: Vec<usize>)
        ensures
            r@ == positions_of(buf@, symbol),
    {
        let mut out: Vec<usize> = Vec::new();
        let mut i: usize = 0;
        while i < buf.len()
            invariant
                i <= buf@.len(),
                out@ == positions_of(buf@.take(i as int), symbol),
            decreases buf@.len() - i,
        {
            proof {
                assert(buf@.take(i as int + 1).drop_last() == buf@.take(i as int));
            }
            if buf[i] == symbol {
                out.push(i);
            }
            i = i + 1;
        }
        proof {
            assert(buf@.take(buf@.len() as int) == buf@);
        }
        out
    }

    /// Buffers new items (given by symbol) and routes the buffer by the
    /// enabled rules.
    pub fn process_data(&mut self, input: &Vec<u64>) -> (out: AggregationOutput)
        requires
            old(self).buffer@.len() + input@.len() <= usize::MAX,
        ensures
            final(self).buffer@ == buffered(old(self).buffer@, input@),
            out.dropped == if old(self).buffer@.len() + input@.len() > BUFFER_LIMIT { BUFFER_TRIM as int } else { 0 },
            out.selected@ == routed(old(self).aggregation_rules@, final(self).buffer@),
            final(self).aggregation_rules@ == old(self).aggregation_rules@,
            final(self).source_id == old(self).source_id,
    {
        let mut k: usize = 0;
        let ghost b0 = self.buffer@;
        while k < input.len()
            invariant
                k <= input@.len(),
                self.buffer@ == b0 + input@.take(k as int),
                self.aggregation_rules@ == old(self).aggregation_rules@,
                self.source_id == old(self).source_id,
                b0 == old(self).buffer@,
            decreases input@.len() - k,
        {
            self.buffer.push(input[k]);
            proof {
                assert(b0 + input@.take(k as int + 1) =~= (b0 + input@.take(k as int)).push(input@[k as int]));
            }
            k = k + 1;
        }
        proof {
            assert(input@.take(input@.len() as int) == input@);
        }
        let mut dropped: usize = 0;
        if self.buffer.len() > BUFFER_LIMIT {
            let mut kept: Vec<u64> = Vec::new();
            let mut i: usize = BUFFER_TRIM;
            while i < self.buffer.len()
                invariant
                    BUFFER_TRIM <= i <= self.buffer@.len(),
                    kept@ == self.buffer@.subrange(BUFFER_TRIM as int, i as int),
                decreases self.buffer@.len() - i,
            {
                kept.push(self.buffer[i]);
                i = i + 1;
            }
            self.buffer = kept;
            dropped = BUFFER_TRIM;
        }
        let mut selected: Vec<usize> = Vec::new();
        let mut r: usize = 0;
        while r < self.aggregation_rules.len()
            invariant
                r <= self.aggregation_rules@.len(),
                selected@ == routed(self.aggregation_rules@.take(r as int), self.buffer@),
            decreases self.aggregation_rules@.len() - r,
        {
            proof {
                assert(self.aggregation_rules@.take(r as int + 1).drop_last() == self.aggregation_rules@.take(r as int));
            }
            let rule = self.aggregation_rules[r];
            if rule.enabled {
                let mut p = Self::positions(&self.buffer, rule.symbol);
                selected.append(&mut p);
            } else {
                proof {
                    assert(selected@ + Seq::<usize>::empty() =~= selected@);
                }
            }
            r = r + 1;
        }
        proof {
            assert(self.aggregation_rules@.take(self.aggregation_rules@.len() as int) == self.aggregation_rules@);
        }
        AggregationOutput { dropped, selected }
    }
}

} // verus!
