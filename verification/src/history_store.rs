//! Stored market data by symbol, in arrival order. A point is kept as what
//! the store orders and finds it by: its timestamp (seconds) and its
//! sequence number; the payload stays with the caller under that key.
use vstd::prelude::*;
use crate::subscriptions::{symbol_index, find_symbol, copy_bytes, lemma_symbol_index_bound};
use crate::historical::{ReplayError, ReplayProgress, ReplayRegistry, ReplaySession, count_before, sorted_times};

verus! {

/// One stored data point.
#[derive(Clone, Copy, Debug, PartialEq, Eq, Structural)]
pub struct StoredPoint {
    pub timestamp: i64,
    pub sequence: u64,
}

/// Errors of the historical store.
#[derive(Clone, Copy, Debug, PartialEq, Eq, Structural)]
pub enum HistoryError {
    /// No data for the symbol or request.
    HistoricalDataUnavailable,
}

/// Points of each symbol, side by side: the symbols in the order they were
/// first stored and, for each, its points in arrival order.
pub struct InMemoryHistoricalStorage {
    pub symbols: Vec<Vec<u8>>,
    pub series: Vec<Vec<StoredPoint>>,
}

/// The two lists line up.
pub open spec fn storage_wf(s: InMemoryHistoricalStorage) -> bool {
    s.symbols@.len() == s.series@.len()
}

/// Points stored for a symbol, in arrival order (none without an entry).
pub open spec fn series_of(s: InMemoryHistoricalStorage, symbol: Seq<u8>) -> Seq<StoredPoint> {
    match symbol_index(s.symbols@, symbol) {
        Some(i) => s.series@[i]@,
        None => Seq::empty(),
    }
}

/// Whether a point lies in the closed time range.
pub open spec fn in_range(p: StoredPoint, start: i64, end: i64) -> bool {
    start <= p.timestamp && p.timestamp <= end
}

/// Number of points over all symbols.
pub open spec fn total_points(series: Seq<Vec<StoredPoint>>) -> nat
    decreases series.len(),
{
    if series.len() == 0 {
        0
    } else {
        total_points(series.drop_last()) + series.last()@.len()
    }
}

/// A prefix holds no more points than the whole list.
proof fn lemma_total_points_prefix(series: Seq<Vec<StoredPoint>>, n: int)
    requires
        0 <= n <= series.len(),
    ensures
        total_points(series.take(n)) <= total_points(series),
    decreases series.len(),
{
    if n < series.len() {
        assert(series.drop_last().take(n) == series.take(n));
        lemma_total_points_prefix(series.drop_last(), n);
    } else {
        assert(series.take(n) == series);
    }
}

/// A copy of a list of points.
fn copy_points(v: &Vec<StoredPoint>) -> (r: Vec<StoredPoint>)
    ensures
        r@ == v@,
{
    let mut out: Vec<StoredPoint> = Vec::new();
    let mut k: usize = 0;
    while k < v.len()
        invariant
            k <= v@.len(),
            out@ == v@.take(k as int),
        decreases v@.len() - k,
    {
        out.push(v[k]);
        k = k + 1;
    }
    proof {
        assert(v@.take(v@.len() as int) == v@);
    }
    out
}

impl InMemoryHistoricalStorage {
    /// A store with no data.
    pub fn new() -> (s: Self)
        ensures
            storage_wf(s),
            s.symbols@.len() == 0,
            forall|sym: Seq<u8>| #[trigger] series_of(s, sym) == Seq::<StoredPoint>::empty(),
    {
        InMemoryHistoricalStorage { symbols: Vec::new(), series: Vec::new() }
    }

    /// Appends a point to its symbol's series.
    pub fn store_market_data(&mut self, symbol: &Vec<u8>, point: StoredPoint)
        requires
            storage_wf(*old(self)),
        ensures
            storage_wf(*final(self)),
            series_of(*final(self), symbol@) == series_of(*old(self), symbol@).push(point),
            forall|s: Seq<u8>| s != symbol@ ==> #[trigger] series_of(*final(self), s) == series_of(*old(self), s),
    {
        match find_symbol(&self.symbols, symbol) {
            Some(i) => {
                proof {
                    lemma_symbol_index_bound(self.symbols@, symbol@);
                }
                let ghost before = self.series@;
                let mut list = self.series.remove(i);
                list.push(point);
                self.series.insert(i, list);
                proof {
                    assert forall|s: Seq<u8>| s != symbol@ implies #[trigger] series_of(*self, s) == series_of(*old(self), s) by {
                        lemma_symbol_index_bound(self.symbols@, s);
                        if symbol_index(self.symbols@, s) is Some {
                            let j = symbol_index(self.symbols@, s)->0;
                            assert(j != i as int);
                            assert(self.series@[j] == before[j]);
                        }
                    }
                }
            },
            None => {
                let key = copy_bytes(symbol);
                let ghost syms0 = self.symbols@;
                let ghost series0 = self.series@;
                self.symbols.push(key);
                let mut list: Vec<StoredPoint> = Vec::new();
                list.push(point);
                self.series.push(list);
                proof {
                    assert(self.symbols@.drop_last() == syms0);
                    assert(symbol_index(self.symbols@, symbol@) == Some(syms0.len() as int));
                    assert(Seq::<StoredPoint>::empty().push(point) =~= seq![point]);
                    assert forall|s: Seq<u8>| s != symbol@ implies #[trigger] series_of(*self, s) == series_of(*old(self), s) by {
                        assert(self.symbols@.drop_last() == syms0);
                        lemma_symbol_index_bound(syms0, s);
                        if symbol_index(syms0, s) is Some {
                            let j = symbol_index(syms0, s)->0;
                            assert(self.series@[j] == series0[j]);
                        }
                    }
                }
            },
        }
    }

    /// The points of a symbol whose time lies in `[start_time, end_time]`,
    /// in arrival order.
    pub fn retrieve_market_data(&self, symbol: &Vec<u8>, start_time: i64, end_time: i64) -> (r: Vec<StoredPoint>)
        requires
            storage_wf(*self),
        ensures
            r@ == series_of(*self, symbol@).filter(|p: StoredPoint| in_range(p, start_time, end_time)),
    {
        match find_symbol(&self.symbols, symbol) {
            Some(i) => {
                proof {
                    lemma_symbol_index_bound(self.symbols@, symbol@);
                }
                let list = &self.series[i];
                let mut out: Vec<StoredPoint> = Vec::new();
                let mut k: usize = 0;
                while k < list.len()
                    invariant
                        k <= list@.len(),
                        out@ == list@.take(k as int).filter(|p: StoredPoint| in_range(p, start_time, end_time)),
                    decreases list@.len() - k,
                {
                    proof {
                        assert(list@.take(k as int + 1).drop_last() == list@.take(k as int));
                        reveal(Seq::filter);
                    }
                    let p = list[k];
                    if start_time <= p.timestamp && p.timestamp <= end_time {
                        out.push(p);
                    }
                    k = k + 1;
                }
                proof {
                    assert(list@.take(list@.len() as int) == list@);
                }
                out
            },
            None => {
                proof {
                    reveal(Seq::filter);
                    assert(Seq::<StoredPoint>::empty().filter(|p: StoredPoint| in_range(p, start_time, end_time))
                        =~= Seq::<StoredPoint>::empty());
                }
                Vec::new()
            },
        }
    }

    /// The symbols that have an entry, in the order they were first stored.
    pub fn get_available_symbols(&self) -> (r: Vec<Vec<u8>>)
        ensures
            r@.len() == self.symbols@.len(),
            forall|i: int| 0 <= i < r@.len() ==> #[trigger] r@[i]@ == self.symbols@[i]@,
    {
        let mut out: Vec<Vec<u8>> = Vec::new();
        let mut k: usize = 0;
        while k < self.symbols.len()
            invariant
                k <= self.symbols@.len(),
                out@.len() == k,
                forall|i: int| 0 <= i < k ==> #[trigger] out@[i]@ == self.symbols@[i]@,
            decreases self.symbols@.len() - k,
        {
            let c = copy_bytes(&self.symbols[k]);
            out.push(c);
            k = k + 1;
        }
        out
    }

    /// Drops every point older than `before` from every symbol (the symbols
    /// keep their entries); returns how many were dropped.
    pub fn delete_old_data(&mut self, before: i64) -> (deleted: u64)
        requires
            storage_wf(*old(self)),
            total_points(old(self).series@) <= u64::MAX,
        ensures
            storage_wf(*final(self)),
            final(self).symbols@ == old(self).symbols@,
            final(self).series@.len() == old(self).series@.len(),
            forall|i: int| 0 <= i < final(self).series@.len() ==> #[trigger] final(self).series@[i]@
                == kept_after(old(self).series@[i]@, before),
            deleted == total_points(old(self).series@) - total_points(final(self).series@),
    {
        let ghost s0 = self.series@;
        let mut kept_series: Vec<Vec<StoredPoint>> = Vec::new();
        let mut deleted: u64 = 0;
        let mut i: usize = 0;
        while i < self.series.len()
            invariant
                self.series@ == s0,
                i <= s0.len(),
                kept_series@.len() == i,
                forall|j: int| 0 <= j < i ==> #[trigger] kept_series@[j]@
                    == s0[j]@.filter(|p: StoredPoint| p.timestamp >= before),
                deleted == total_points(s0.take(i as int)) - total_points(kept_series@),
                total_points(s0) <= u64::MAX,
                total_points(kept_series@) <= total_points(s0.take(i as int)),
            decreases s0.len() - i,
        {
            let list = &self.series[i];
            let mut kept: Vec<StoredPoint> = Vec::new();
            let mut k: usize = 0;
            while k < list.len()
                invariant
                    k <= list@.len(),
                    kept@ == list@.take(k as int).filter(|p: StoredPoint| p.timestamp >= before),
                decreases list@.len() - k,
            {
                proof {
                    assert(list@.take(k as int + 1).drop_last() == list@.take(k as int));
                    reveal(Seq::filter);
                }
                let p = list[k];
                if p.timestamp >= before {
                    kept.push(p);
                }
                k = k + 1;
            }
            proof {
                assert(list@.take(list@.len() as int) == list@);
                list@.lemma_filter_len(|p: StoredPoint| p.timestamp >= before);
                assert(s0.take(i as int + 1).drop_last() == s0.take(i as int));
                lemma_total_points_prefix(s0, i as int + 1);
            }
            let dropped = list.len() - kept.len();
            let ghost kept_before = kept_series@;
            kept_series.push(kept);
            proof {
                assert(kept_series@.drop_last() == kept_before);
                assert(s0.take(i as int + 1).last() == s0[i as int]);
                assert(total_points(s0.take(i as int + 1)) == total_points(s0.take(i as int)) + list@.len());
                assert(total_points(kept_series@) == total_points(kept_before) + kept@.len());
            }
            deleted = deleted + dropped as u64;
            i = i + 1;
        }
        proof {
            assert(s0.take(s0.len() as int) == s0);
        }
        self.series = kept_series;
        deleted
    }

    /// Timestamps of the first and the last stored point of a symbol;
    /// `HistoricalDataUnavailable` when it has none.
    pub fn get_data_range(&self, symbol: &Vec<u8>) -> (r: Result<(i64, i64), HistoryError>)
        requires
            storage_wf(*self),
        ensures
            series_of(*self, symbol@).len() == 0 ==> r == Err::<(i64, i64), HistoryError>(
                HistoryError::HistoricalDataUnavailable,
            ),
            series_of(*self, symbol@).len() > 0 ==> r == Ok::<(i64, i64), HistoryError>(
                (series_of(*self, symbol@)[0].timestamp, series_of(*self, symbol@).last().timestamp),
            ),
    {
        match find_symbol(&self.symbols, symbol) {
            Some(i) => {
                proof {
                    lemma_symbol_index_bound(self.symbols@, symbol@);
                }
                let list = &self.series[i];
                if list.len() == 0 {
                    Err(HistoryError::HistoricalDataUnavailable)
                } else {
                    Ok((list[0].timestamp, list[list.len() - 1].timestamp))
                }
            },
            None => Err(HistoryError::HistoricalDataUnavailable),
        }
    }
}

/// A read after a write: once a point is stored, a range query on its
/// symbol gives what it gave before, followed by the point when the point's
/// time lies in the range.
pub proof fn lemma_store_then_retrieve(before: Seq<StoredPoint>, point: StoredPoint, start: i64, end: i64)
    ensures
        before.push(point).filter(|p: StoredPoint| in_range(p, start, end)) == if in_range(point, start, end) {
            before.filter(|p: StoredPoint| in_range(p, start, end)).push(point)
        } else {
            before.filter(|p: StoredPoint| in_range(p, start, end))
        },
{
    reveal(Seq::filter);
    assert(before.push(point).drop_last() =~= before);
}

/// The points at or after a time, in order.
pub open spec fn kept_after(series: Seq<StoredPoint>, before: i64) -> Seq<StoredPoint> {
    series.filter(|p: StoredPoint| p.timestamp >= before)
}

/// Deleting old data keeps exactly the points at or after the cut: none
/// older remains and none newer is lost.
pub proof fn lemma_delete_keeps_newer(series: Seq<StoredPoint>, before: i64)
    ensures
        forall|k: int| 0 <= k < kept_after(series, before).len() ==> #[trigger] kept_after(series, before)[k].timestamp >= before,
        forall|k: int| 0 <= k < series.len() && #[trigger] series[k].timestamp >= before
            ==> kept_after(series, before).contains(series[k]),
{
    let f = |p: StoredPoint| p.timestamp >= before;
    assert forall|k: int| 0 <= k < kept_after(series, before).len() implies #[trigger] kept_after(series, before)[k].timestamp >= before by {
        series.lemma_filter_pred(f, k);
    }
    assert forall|k: int| 0 <= k < series.len() && #[trigger] series[k].timestamp >= before
        implies kept_after(series, before).contains(series[k]) by {
        series.lemma_filter_contains(f, k);
    }
}

/// A request for the stored points of a symbol in a time range, at most
/// `limit` of them when a limit is set.
pub struct HistoricalDataRequest {
    pub symbol: Vec<u8>,
    pub start_time: i64,
    pub end_time: i64,
    pub limit: Option<u64>,
}

/// Figures about the stored data and the replays.
#[derive(Clone, Copy, Debug, PartialEq, Eq, Structural)]
pub struct HistoricalDataStats {
    /// Not counted by this store: always 0.
    pub total_data_points: u64,
    pub oldest_data: Option<i64>,
    pub newest_data: Option<i64>,
    pub symbols_count: usize,
    /// Not measured by this store: always 0.
    pub storage_size_bytes: u64,
    pub active_replay_sessions: usize,
}

/// The first `limit` points when there are more.
pub open spec fn apply_limit(s: Seq<StoredPoint>, limit: Option<u64>) -> Seq<StoredPoint> {
    match limit {
        Some(l) => if s.len() > l { s.take(l as int) } else { s },
        None => s,
    }
}

/// What a request gives back from a store.
pub open spec fn requested_points(st: InMemoryHistoricalStorage, symbol: Seq<u8>, start: i64, end: i64, limit: Option<u64>) -> Seq<StoredPoint> {
    apply_limit(series_of(st, symbol).filter(|p: StoredPoint| in_range(p, start, end)), limit)
}

/// Earlier of a time so far and another.
pub open spec fn earlier(a: Option<i64>, x: i64) -> Option<i64> {
    match a {
        Some(v) => Some(if x < v { x } else { v }),
        None => Some(x),
    }
}

/// Later of a time so far and another.
pub open spec fn later(a: Option<i64>, x: i64) -> Option<i64> {
    match a {
        Some(v) => Some(if x > v { x } else { v }),
        None => Some(x),
    }
}

/// Earliest time at which a symbol's series starts (series without points
/// do not count).
pub open spec fn oldest_of(series: Seq<Vec<StoredPoint>>) -> Option<i64>
    decreases series.len(),
{
    if series.len() == 0 {
        None
    } else if series.last()@.len() == 0 {
        oldest_of(series.drop_last())
    } else {
        earlier(oldest_of(series.drop_last()), series.last()@[0].timestamp)
    }
}

/// Latest time at which a symbol's series ends (series without points do
/// not count).
pub open spec fn newest_of(series: Seq<Vec<StoredPoint>>) -> Option<i64>
    decreases series.len(),
{
    if series.len() == 0 {
        None
    } else if series.last()@.len() == 0 {
        newest_of(series.drop_last())
    } else {
        later(newest_of(series.drop_last()), series.last()@.last().timestamp)
    }
}

/// Position of the first session with an id.
pub open spec fn session_index(s: Seq<ReplaySession>, id: u128) -> Option<int>
    decreases s.len(),
{
    if s.len() == 0 {
        None
    } else {
        match session_index(s.drop_last(), id) {
            Some(i) => Some(i),
            None => if s.last().id == id { Some(s.len() - 1) } else { None },
        }
    }
}

/// The first position holding an id is what `session_index` names.
proof fn lemma_session_index(s: Seq<ReplaySession>, id: u128, i: int)
    requires
        0 <= i <= s.len(),
        i < s.len() ==> s[i].id == id,
        forall|k: int| 0 <= k < i ==> #[trigger] s[k].id != id,
    ensures
        session_index(s, id) == if i < s.len() { Some(i) } else { None::<int> },
    decreases s.len(),
{
    if s.len() > 0 {
        let d = s.drop_last();
        if i < s.len() - 1 {
            assert forall|k: int| 0 <= k < i implies #[trigger] d[k].id != id by {
                assert(d[k] == s[k]);
            }
            assert(d[i] == s[i]);
            lemma_session_index(d, id, i);
        } else {
            assert forall|k: int| 0 <= k < d.len() implies #[trigger] d[k].id != id by {
                assert(d[k] == s[k]);
            }
            lemma_session_index(d, id, d.len() as int);
            assert(s.last() == s[s.len() - 1]);
        }
    }
}

/// Stored data with its replay sessions.
pub struct HistoricalDataManager {
    pub storage: InMemoryHistoricalStorage,
    pub replays: ReplayRegistry,
}

impl HistoricalDataManager {
    /// A manager over an empty store, allowing `max_replay_sessions` replays.
    pub fn new(max_replay_sessions: usize) -> (m: Self)
        ensures
            storage_wf(m.storage),
            m.storage.symbols@.len() == 0,
            forall|sym: Seq<u8>| #[trigger] series_of(m.storage, sym) == Seq::<StoredPoint>::empty(),
            m.replays.sessions@.len() == 0,
            m.replays.max_replay_sessions == max_replay_sessions,
    {
        HistoricalDataManager {
            storage: InMemoryHistoricalStorage::new(),
            replays: ReplayRegistry::new(max_replay_sessions),
        }
    }

    /// Stores a point of a symbol.
    pub fn store_data(&mut self, symbol: &Vec<u8>, point: StoredPoint) -> (r: Result<(), HistoryError>)
        requires
            storage_wf(old(self).storage),
        ensures
            r is Ok,
            storage_wf(final(self).storage),
            series_of(final(self).storage, symbol@) == series_of(old(self).storage, symbol@).push(point),
            forall|s: Seq<u8>| s != symbol@ ==> #[trigger] series_of(final(self).storage, s) == series_of(old(self).storage, s),
            final(self).replays == old(self).replays,
    {
        self.storage.store_market_data(symbol, point);
        Ok(())
    }

    /// The points in the request's time range, in arrival order, cut to the
    /// request's limit.
    pub fn retrieve_data(&self, request: &HistoricalDataRequest) -> (r: Result<Vec<StoredPoint>, HistoryError>)
        requires
            storage_wf(self.storage),
        ensures
            r matches Ok(v) && v@ == requested_points(
                self.storage,
                request.symbol@,
                request.start_time,
                request.end_time,
                request.limit,
            ),
    {
        let mut data = self.storage.retrieve_market_data(&request.symbol, request.start_time, request.end_time);
        match request.limit {
            Some(limit) => {
                if (data.len() as u64) > limit {
                    data.truncate(limit as usize);
                    proof {
                        assert(data@ =~= requested_points(
                            self.storage,
                            request.symbol@,
                            request.start_time,
                            request.end_time,
                            request.limit,
                        ));
                    }
                }
            },
            None => {},
        }
        Ok(data)
    }

    /// Opens a paused replay over the points a request gives: refused when
    /// the session limit is reached, or when the request gives no points.
    pub fn create_replay_session(&mut self, request: &HistoricalDataRequest, id: u128, now: i64) -> (r: Result<u128, ReplayError>)
        requires
            storage_wf(old(self).storage),
        ensures
            final(self).storage == old(self).storage,
            final(self).replays.max_replay_sessions == old(self).replays.max_replay_sessions,
            old(self).replays.sessions@.len() >= old(self).replays.max_replay_sessions ==> r == Err::<u128, ReplayError>(
                ReplayError::TooManySessions,
            ) && final(self).replays.sessions@ == old(self).replays.sessions@,
            old(self).replays.sessions@.len() < old(self).replays.max_replay_sessions && requested_points(
                old(self).storage,
                request.symbol@,
                request.start_time,
                request.end_time,
                request.limit,
            ).len() == 0 ==> r == Err::<u128, ReplayError>(ReplayError::NoData)
                && final(self).replays.sessions@ == old(self).replays.sessions@,
            old(self).replays.sessions@.len() < old(self).replays.max_replay_sessions && requested_points(
                old(self).storage,
                request.symbol@,
                request.start_time,
                request.end_time,
                request.limit,
            ).len() > 0 ==> {
                &&& r == Ok::<u128, ReplayError>(id)
                &&& final(self).replays.sessions@.drop_last() == old(self).replays.sessions@
                &&& final(self).replays.sessions@.last().id == id
                &&& final(self).replays.sessions@.last().timestamps@ == requested_points(
                    old(self).storage,
                    request.symbol@,
                    request.start_time,
                    request.end_time,
                    request.limit,
                ).map_values(|p: StoredPoint| p.timestamp)
                &&& final(self).replays.sessions@.last().current_position == 0
                &&& !final(self).replays.sessions@.last().is_playing
                &&& final(self).replays.sessions@.last().created_at == now
            },
    {
        if self.replays.sessions.len() >= self.replays.max_replay_sessions {
            return Err(ReplayError::TooManySessions);
        }
        let data = match self.retrieve_data(request) {
            Ok(d) => d,
            Err(_) => {
                return Err(ReplayError::NoData);
            },
        };
        let mut timestamps: Vec<i64> = Vec::new();
        let mut k: usize = 0;
        while k < data.len()
            invariant
                k <= data@.len(),
                timestamps@ == data@.take(k as int).map_values(|p: StoredPoint| p.timestamp),
            decreases data@.len() - k,
        {
            timestamps.push(data[k].timestamp);
            proof {
                assert(data@.take(k as int + 1).map_values(|p: StoredPoint| p.timestamp)
                    =~= data@.take(k as int).map_values(|p: StoredPoint| p.timestamp).push(data@[k as int].timestamp));
            }
            k = k + 1;
        }
        proof {
            assert(data@.take(data@.len() as int) == data@);
        }
        self.replays.create_replay_session(id, timestamps, now)
    }

    /// Figures about the store: the earliest start and latest end over the
    /// symbols' series, the number of symbols, and the number of replays.
    pub fn get_statistics(&self) -> (stats: HistoricalDataStats)
        requires
            storage_wf(self.storage),
        ensures
            stats.total_data_points == 0,
            stats.oldest_data == oldest_of(self.storage.series@),
            stats.newest_data == newest_of(self.storage.series@),
            stats.symbols_count == self.storage.symbols@.len(),
            stats.storage_size_bytes == 0,
            stats.active_replay_sessions == self.replays.sessions@.len(),
    {
        let series = &self.storage.series;
        let mut oldest: Option<i64> = None;
        let mut newest: Option<i64> = None;
        let mut i: usize = 0;
        while i < series.len()
            invariant
                i <= series@.len(),
                oldest == oldest_of(series@.take(i as int)),
                newest == newest_of(series@.take(i as int)),
            decreases series@.len() - i,
        {
            proof {
                assert(series@.take(i as int + 1).drop_last() == series@.take(i as int));
                assert(series@.take(i as int + 1).last() == series@[i as int]);
            }
            let list = &series[i];
            if list.len() > 0 {
                let first = list[0].timestamp;
                let last = list[list.len() - 1].timestamp;
                oldest = match oldest {
                    Some(v) => Some(if first < v { first } else { v }),
                    None => Some(first),
                };
                newest = match newest {
                    Some(v) => Some(if last > v { last } else { v }),
                    None => Some(last),
                };
            }
            i = i + 1;
        }
        proof {
            assert(series@.take(series@.len() as int) == series@);
        }
        HistoricalDataStats {
            total_data_points: 0,
            oldest_data: oldest,
            newest_data: newest,
            symbols_count: self.storage.symbols.len(),
            storage_size_bytes: 0,
            active_replay_sessions: self.replays.sessions.len(),
        }
    }

    /// Position of the first session with an id.
    pub fn session_position(&self, id: u128) -> (r: Option<usize>)
        ensures
            r matches Some(i) ==> session_index(self.replays.sessions@, id) == Some(i as int)
                && i < self.replays.sessions@.len(),
            r is None ==> session_index(self.replays.sessions@, id) is None,
    {
        let r = self.replays.find(id);
        proof {
            match r {
                Some(i) => lemma_session_index(self.replays.sessions@, id, i as int),
                None => lemma_session_index(self.replays.sessions@, id, self.replays.sessions@.len() as int),
            }
        }
        r
    }

    /// Starts (or resumes) a replay.
    pub fn start_replay(&mut self, id: u128, now: i64) -> (r: Result<(), ReplayError>)
        ensures
            final(self).storage == old(self).storage,
            final(self).replays.max_replay_sessions == old(self).replays.max_replay_sessions,
            session_index(old(self).replays.sessions@, id) is None ==> r == Err::<(), ReplayError>(
                ReplayError::SessionNotFound,
            ) && final(self).replays.sessions@ == old(self).replays.sessions@,
            session_index(old(self).replays.sessions@, id) matches Some(i) ==> {
                &&& r is Ok
                &&& only_changed_at(old(self).replays.sessions@, final(self).replays.sessions@, i)
                &&& same_data(old(self).replays.sessions@[i], final(self).replays.sessions@[i])
                &&& final(self).replays.sessions@[i].is_playing
                &&& final(self).replays.sessions@[i].last_update == now
                &&& final(self).replays.sessions@[i].current_position == old(self).replays.sessions@[i].current_position
            },
    {
        match self.session_position(id) {
            None => Err(ReplayError::SessionNotFound),
            Some(i) => {
                let mut session = self.replays.sessions.remove(i);
                session.start(now);
                self.replays.sessions.insert(i, session);
                Ok(())
            },
        }
    }

    /// Pauses a replay.
    pub fn pause_replay(&mut self, id: u128, now: i64) -> (r: Result<(), ReplayError>)
        ensures
            final(self).storage == old(self).storage,
            final(self).replays.max_replay_sessions == old(self).replays.max_replay_sessions,
            session_index(old(self).replays.sessions@, id) is None ==> r == Err::<(), ReplayError>(
                ReplayError::SessionNotFound,
            ) && final(self).replays.sessions@ == old(self).replays.sessions@,
            session_index(old(self).replays.sessions@, id) matches Some(i) ==> {
                &&& r is Ok
                &&& only_changed_at(old(self).replays.sessions@, final(self).replays.sessions@, i)
                &&& same_data(old(self).replays.sessions@[i], final(self).replays.sessions@[i])
                &&& !final(self).replays.sessions@[i].is_playing
                &&& final(self).replays.sessions@[i].last_update == now
                &&& final(self).replays.sessions@[i].current_position == old(self).replays.sessions@[i].current_position
            },
    {
        match self.session_position(id) {
            None => Err(ReplayError::SessionNotFound),
            Some(i) => {
                let mut session = self.replays.sessions.remove(i);
                session.pause(now);
                self.replays.sessions.insert(i, session);
                Ok(())
            },
        }
    }

    /// Moves a replay to the first point at or after `timestamp`.
    pub fn seek_replay(&mut self, id: u128, timestamp: i64, now: i64) -> (r: Result<(), ReplayError>)
        ensures
            final(self).storage == old(self).storage,
            final(self).replays.max_replay_sessions == old(self).replays.max_replay_sessions,
            session_index(old(self).replays.sessions@, id) is None ==> r == Err::<(), ReplayError>(
                ReplayError::SessionNotFound,
            ) && final(self).replays.sessions@ == old(self).replays.sessions@,
            session_index(old(self).replays.sessions@, id) matches Some(i) ==> {
                &&& r is Ok
                &&& only_changed_at(old(self).replays.sessions@, final(self).replays.sessions@, i)
                &&& same_data(old(self).replays.sessions@[i], final(self).replays.sessions@[i])
                &&& final(self).replays.sessions@[i].is_playing == old(self).replays.sessions@[i].is_playing
                &&& final(self).replays.sessions@[i].last_update == now
                &&& final(self).replays.sessions@[i].current_position <= old(self).replays.sessions@[i].timestamps@.len()
                &&& sorted_times(old(self).replays.sessions@[i].timestamps@) ==> final(self).replays.sessions@[i].current_position
                    == count_before(old(self).replays.sessions@[i].timestamps@, timestamp)
            },
    {
        match self.session_position(id) {
            None => Err(ReplayError::SessionNotFound),
            Some(i) => {
                let mut session = self.replays.sessions.remove(i);
                session.seek(timestamp, now);
                self.replays.sessions.insert(i, session);
                Ok(())
            },
        }
    }

    /// Index of the next point a playing replay gives (in its data), if
    /// any; the replay advances and stops after its last point.
    pub fn get_next_replay_data(&mut self, id: u128, now: i64) -> (r: Result<Option<usize>, ReplayError>)
        ensures
            final(self).storage == old(self).storage,
            final(self).replays.max_replay_sessions == old(self).replays.max_replay_sessions,
            session_index(old(self).replays.sessions@, id) is None ==> r == Err::<Option<usize>, ReplayError>(
                ReplayError::SessionNotFound,
            ) && final(self).replays.sessions@ == old(self).replays.sessions@,
            session_index(old(self).replays.sessions@, id) matches Some(i) ==> {
                let before = old(self).replays.sessions@[i];
                let after = final(self).replays.sessions@[i];
                &&& only_changed_at(old(self).replays.sessions@, final(self).replays.sessions@, i)
                &&& same_data(before, after)
                &&& (!before.is_playing || before.current_position >= before.timestamps@.len()) ==> {
                    &&& r == Ok::<Option<usize>, ReplayError>(None)
                    &&& after.current_position == before.current_position
                    &&& after.is_playing == before.is_playing
                    &&& after.last_update == before.last_update
                }
                &&& (before.is_playing && before.current_position < before.timestamps@.len()) ==> {
                    &&& r == Ok::<Option<usize>, ReplayError>(Some(before.current_position))
                    &&& after.current_position == before.current_position + 1
                    &&& after.is_playing == (before.current_position + 1 < before.timestamps@.len())
                    &&& after.last_update == now
                }
            },
    {
        match self.session_position(id) {
            None => Err(ReplayError::SessionNotFound),
            Some(i) => {
                let mut session = self.replays.sessions.remove(i);
                let next = session.next_point(now);
                self.replays.sessions.insert(i, session);
                Ok(next)
            },
        }
    }

    /// Where a replay stands.
    pub fn get_replay_progress(&self, id: u128) -> (r: Result<ReplayProgress, ReplayError>)
        ensures
            session_index(self.replays.sessions@, id) is None ==> r == Err::<ReplayProgress, ReplayError>(
                ReplayError::SessionNotFound,
            ),
            session_index(self.replays.sessions@, id) matches Some(i) ==> {
                let s = self.replays.sessions@[i];
                r == Ok::<ReplayProgress, ReplayError>(
                    ReplayProgress {
                        session_id: s.id,
                        total_points: s.timestamps@.len() as usize,
                        current_point: s.current_position,
                        current_timestamp: if s.current_position < s.timestamps@.len() {
                            s.timestamps@[s.current_position as int]
                        } else {
                            s.start_time
                        },
                    },
                )
            },
    {
        match self.session_position(id) {
            None => Err(ReplayError::SessionNotFound),
            Some(i) => Ok(self.replays.sessions[i].progress()),
        }
    }

    /// Ids of the replays, in creation order.
    pub fn get_active_sessions(&self) -> (r: Vec<u128>)
        ensures
            r@ == self.replays.sessions@.map_values(|s: ReplaySession| s.id),
    {
        let mut out: Vec<u128> = Vec::new();
        let mut k: usize = 0;
        while k < self.replays.sessions.len()
            invariant
                k <= self.replays.sessions@.len(),
                out@ == self.replays.sessions@.take(k as int).map_values(|s: ReplaySession| s.id),
            decreases self.replays.sessions@.len() - k,
        {
            out.push(self.replays.sessions[k].id);
            proof {
                assert(self.replays.sessions@.take(k as int + 1).map_values(|s: ReplaySession| s.id)
                    =~= self.replays.sessions@.take(k as int).map_values(|s: ReplaySession| s.id).push(self.replays.sessions@[k as int].id));
            }
            k = k + 1;
        }
        proof {
            assert(self.replays.sessions@.take(self.replays.sessions@.len() as int) == self.replays.sessions@);
        }
        out
    }
}

/// Two lists of sessions agree everywhere but at one position.
pub open spec fn only_changed_at(a: Seq<ReplaySession>, b: Seq<ReplaySession>, i: int) -> bool {
    &&& a.len() == b.len()
    &&& 0 <= i < a.len()
    &&& forall|k: int| 0 <= k < a.len() && k != i ==> #[trigger] b[k] == a[k]
}

/// Two sessions replay the same data under the same id.
pub open spec fn same_data(a: ReplaySession, b: ReplaySession) -> bool {
    &&& a.id == b.id
    &&& a.timestamps@ == b.timestamps@
    &&& a.created_at == b.created_at
    &&& a.start_time == b.start_time
    &&& a.end_time == b.end_time
}

} // verus!
