//! Open client connections and their counters: a pool bounds new
//! connections, idle ones are dropped after a timeout, and the manager keeps
//! running totals of what closed connections sent and received. Times are
//! milliseconds; the channel that carries a connection's messages stays
//! with the caller, who reports what it sent.
use vstd::prelude::*;
use crate::connection::{ConnectionState, LoadBalancer};

verus! {

/// Idle time after which a pooled connection is dropped.
pub const POOL_IDLE_TIMEOUT_MS: u64 = 300_000;

/// Interval at which the pool is pruned.
pub const POOL_CLEANUP_INTERVAL_MS: u64 = 60_000;

/// Errors of the connection manager.
#[derive(Clone, Copy, Debug, PartialEq, Eq, Structural)]
pub enum ConnectionError {
    /// The pool takes no more connections.
    ConnectionLimitReached,
    /// No connection with the id.
    ConnectionNotFound,
}

/// Counters of one connection.
#[derive(Clone, Copy, Debug, PartialEq, Eq, Structural)]
pub struct ConnectionStats {
    pub messages_sent: u64,
    pub messages_received: u64,
    pub bytes_sent: u64,
    pub bytes_received: u64,
    pub last_ping_sent: Option<i64>,
    pub last_pong_received: Option<i64>,
    pub errors_count: u64,
}

/// A client connection.
pub struct Connection {
    pub id: u128,
    pub remote_addr: Vec<u8>,
    pub connected_at: i64,
    pub last_activity: i64,
    pub stats: ConnectionStats,
    pub state: ConnectionState,
}

/// Totals over all connections.
#[derive(Clone, Copy, Debug, PartialEq, Eq, Structural)]
pub struct ConnectionMetrics {
    pub total_connections: u64,
    pub active_connections: u64,
    pub peak_connections: u64,
    pub total_messages_sent: u64,
    pub total_messages_received: u64,
    pub total_bytes_sent: u64,
    pub total_bytes_received: u64,
}

/// Connections waiting idle, with the time each became idle; at most
/// `max_connections` may wait before new connections are refused.
pub struct ConnectionPool {
    pub max_connections: usize,
    pub idle_timeout_ms: u64,
    pub cleanup_interval_ms: u64,
    pub idle_connections: Vec<(u128, i64)>,
}

/// No id occurs twice in the idle list.
pub open spec fn idle_ids_unique(s: Seq<(u128, i64)>) -> bool {
    forall|i: int, j: int| 0 <= i < j < s.len() ==> s[i].0 != s[j].0
}

/// Whether a pooled connection idle since `since` is still within the
/// timeout at `now` (a time after `now` counts as past the timeout).
pub open spec fn still_fresh(since: i64, now: i64, timeout_ms: u64) -> bool {
    since <= now && now - since < timeout_ms
}

/// Position of an id in the idle list.
pub open spec fn idle_position(s: Seq<(u128, i64)>, id: u128) -> Option<int> {
    if exists|i: int| 0 <= i < s.len() && s[i].0 == id {
        Some(choose|i: int| 0 <= i < s.len() && s[i].0 == id)
    } else {
        None
    }
}

impl ConnectionPool {
    /// An empty pool bounded by `max_connections`.
    pub fn new(max_connections: usize) -> (p: Self)
        ensures
            p.max_connections == max_connections,
            p.idle_timeout_ms == POOL_IDLE_TIMEOUT_MS,
            p.cleanup_interval_ms == POOL_CLEANUP_INTERVAL_MS,
            p.idle_connections@.len() == 0,
    {
        ConnectionPool {
            max_connections,
            idle_timeout_ms: POOL_IDLE_TIMEOUT_MS,
            cleanup_interval_ms: POOL_CLEANUP_INTERVAL_MS,
            idle_connections: Vec::new(),
        }
    }

    /// Whether another connection may be added.
    pub fn can_add_connection(&self) -> (r: bool)
        ensures
            r == (self.idle_connections@.len() < self.max_connections),
    {
        self.idle_connections.len() < self.max_connections
    }

    /// Marks a connection idle since `now` (again, if it already was).
    pub fn add_idle_connection(&mut self, connection_id: u128, now: i64)
        requires
            idle_ids_unique(old(self).idle_connections@),
        ensures
            idle_ids_unique(final(self).idle_connections@),
            final(self).max_connections == old(self).max_connections,
            final(self).idle_timeout_ms == old(self).idle_timeout_ms,
            final(self).cleanup_interval_ms == old(self).cleanup_interval_ms,
            idle_position(old(self).idle_connections@, connection_id) matches Some(i) ==> final(self).idle_connections@
                == old(self).idle_connections@.update(i, (connection_id, now)),
            idle_position(old(self).idle_connections@, connection_id) is None ==> final(self).idle_connections@
                == old(self).idle_connections@.push((connection_id, now)),
    {
        let mut i: usize = 0;
        while i < self.idle_connections.len()
            invariant
                i <= self.idle_connections@.len(),
                self.idle_connections@ == old(self).idle_connections@,
                self.max_connections == old(self).max_connections,
                self.idle_timeout_ms == old(self).idle_timeout_ms,
                self.cleanup_interval_ms == old(self).cleanup_interval_ms,
                idle_ids_unique(self.idle_connections@),
                forall|k: int| 0 <= k < i ==> #[trigger] self.idle_connections@[k].0 != connection_id,
            decreases self.idle_connections@.len() - i,
        {
            if self.idle_connections[i].0 == connection_id {
                proof {
                    let s = old(self).idle_connections@;
                    assert(s[i as int].0 == connection_id);
                    let c = choose|k: int| 0 <= k < s.len() && s[k].0 == connection_id;
                    assert(c == i as int);
                }
                self.idle_connections.set(i, (connection_id, now));
                proof {
                    let s = old(self).idle_connections@;
                    assert forall|a: int, b: int| 0 <= a < b < self.idle_connections@.len()
                        implies self.idle_connections@[a].0 != self.idle_connections@[b].0 by {
                        assert(s[a].0 != s[b].0);
                    }
                }
                return;
            }
            i = i + 1;
        }
        self.idle_connections.push((connection_id, now));
    }

    /// Forgets a connection's idle entry.
    pub fn remove_idle_connection(&mut self, connection_id: u128)
        requires
            idle_ids_unique(old(self).idle_connections@),
        ensures
            idle_ids_unique(final(self).idle_connections@),
            final(self).max_connections == old(self).max_connections,
            final(self).idle_timeout_ms == old(self).idle_timeout_ms,
            final(self).cleanup_interval_ms == old(self).cleanup_interval_ms,
            final(self).idle_connections@ == old(self).idle_connections@.filter(|e: (u128, i64)| e.0 != connection_id),
    {
        let ghost s0 = self.idle_connections@;
        let mut kept: Vec<(u128, i64)> = Vec::new();
        let mut i: usize = 0;
        while i < self.idle_connections.len()
            invariant
                i <= s0.len(),
                self.idle_connections@ == s0,
                idle_ids_unique(s0),
                kept@ == s0.take(i as int).filter(|e: (u128, i64)| e.0 != connection_id),
                forall|a: int, b: int| 0 <= a < b < kept@.len() ==> kept@[a].0 != kept@[b].0,
                forall|a: int| 0 <= a < kept@.len() ==> exists|k: int| 0 <= k < i && #[trigger] kept@[a] == s0[k],
            decreases s0.len() - i,
        {
            proof {
                assert(s0.take(i as int + 1).drop_last() == s0.take(i as int));
                reveal(Seq::filter);
            }
            let e = self.idle_connections[i];
            if e.0 != connection_id {
                proof {
                    assert forall|a: int| 0 <= a < kept@.len() implies kept@[a].0 != e.0 by {
                        let k = choose|k: int| 0 <= k < i && kept@[a] == s0[k];
                        assert(s0[k].0 != s0[i as int].0);
                    }
                }
                kept.push(e);
                proof {
                    assert forall|a: int| 0 <= a < kept@.len() implies exists|k: int| 0 <= k < i + 1 && #[trigger] kept@[a] == s0[k] by {
                        if a == kept@.len() - 1 {
                            assert(kept@[a] == s0[i as int]);
                        } else {
                            let k = choose|k: int| 0 <= k < i && kept@[a] == s0[k];
                            assert(kept@[a] == s0[k]);
                        }
                    }
                }
            }
            i = i + 1;
        }
        proof {
            assert(s0.take(s0.len() as int) == s0);
        }
        self.idle_connections = kept;
    }

    /// Drops the entries idle for the timeout or longer at `now`.
    pub fn prune_idle(&mut self, now: i64)
        requires
            idle_ids_unique(old(self).idle_connections@),
        ensures
            idle_ids_unique(final(self).idle_connections@),
            final(self).max_connections == old(self).max_connections,
            final(self).idle_timeout_ms == old(self).idle_timeout_ms,
            final(self).cleanup_interval_ms == old(self).cleanup_interval_ms,
            final(self).idle_connections@ == old(self).idle_connections@.filter(
                |e: (u128, i64)| still_fresh(e.1, now, old(self).idle_timeout_ms),
            ),
    {
        let ghost s0 = self.idle_connections@;
        let timeout = self.idle_timeout_ms;
        let mut kept: Vec<(u128, i64)> = Vec::new();
        let mut i: usize = 0;
        while i < self.idle_connections.len()
            invariant
                i <= s0.len(),
                self.idle_connections@ == s0,
                timeout == self.idle_timeout_ms,
                idle_ids_unique(s0),
                kept@ == s0.take(i as int).filter(|e: (u128, i64)| still_fresh(e.1, now, timeout)),
                forall|a: int, b: int| 0 <= a < b < kept@.len() ==> kept@[a].0 != kept@[b].0,
                forall|a: int| 0 <= a < kept@.len() ==> exists|k: int| 0 <= k < i && #[trigger] kept@[a] == s0[k],
            decreases s0.len() - i,
        {
            proof {
                assert(s0.take(i as int + 1).drop_last() == s0.take(i as int));
                reveal(Seq::filter);
            }
            let e = self.idle_connections[i];
            let fresh = e.1 <= now && ((now as i128 - e.1 as i128) < timeout as i128);
            if fresh {
                proof {
                    assert forall|a: int| 0 <= a < kept@.len() implies kept@[a].0 != e.0 by {
                        let k = choose|k: int| 0 <= k < i && kept@[a] == s0[k];
                        assert(s0[k].0 != s0[i as int].0);
                    }
                }
                kept.push(e);
                proof {
                    assert forall|a: int| 0 <= a < kept@.len() implies exists|k: int| 0 <= k < i + 1 && #[trigger] kept@[a] == s0[k] by {
                        if a == kept@.len() - 1 {
                            assert(kept@[a] == s0[i as int]);
                        } else {
                            let k = choose|k: int| 0 <= k < i && kept@[a] == s0[k];
                            assert(kept@[a] == s0[k]);
                        }
                    }
                }
            }
            i = i + 1;
        }
        proof {
            assert(s0.take(s0.len() as int) == s0);
        }
        self.idle_connections = kept;
    }
}

/// One of a connection's traffic counters, by number: messages sent,
/// messages received, bytes sent, bytes received.
pub open spec fn stat(s: ConnectionStats, k: int) -> u64 {
    if k == 0 {
        s.messages_sent
    } else if k == 1 {
        s.messages_received
    } else if k == 2 {
        s.bytes_sent
    } else {
        s.bytes_received
    }
}

/// The manager's running total for a counter, by the same number.
pub open spec fn total(m: ConnectionMetrics, k: int) -> u64 {
    if k == 0 {
        m.total_messages_sent
    } else if k == 1 {
        m.total_messages_received
    } else if k == 2 {
        m.total_bytes_sent
    } else {
        m.total_bytes_received
    }
}

/// Sum of a counter over connections.
pub open spec fn sum_stat(conns: Seq<Connection>, k: int) -> int
    decreases conns.len(),
{
    if conns.len() == 0 {
        0
    } else {
        sum_stat(conns.drop_last(), k) + stat(conns.last().stats, k)
    }
}

/// The running totals can take in every open connection's counters.
pub open spec fn totals_fit(m: ConnectionMetrics, conns: Seq<Connection>) -> bool {
    forall|k: int| 0 <= k < 4 ==> #[trigger] total(m, k) + sum_stat(conns, k) <= u64::MAX
}

/// No id occurs twice among the connections.
pub open spec fn connection_ids_unique(conns: Seq<Connection>) -> bool {
    forall|i: int, j: int| 0 <= i < j < conns.len() ==> conns[i].id != conns[j].id
}

/// Position of the connection with an id, if open.
pub open spec fn connection_position(conns: Seq<Connection>, id: u128) -> Option<int> {
    if exists|i: int| 0 <= i < conns.len() && conns[i].id == id {
        Some(choose|i: int| 0 <= i < conns.len() && conns[i].id == id)
    } else {
        None
    }
}

/// Whether a connection counts as idle at `now`: no activity for longer
/// than the timeout, or activity dated after `now`.
pub open spec fn is_idle(c: Connection, now: i64, idle_timeout_ms: u64) -> bool {
    now < c.last_activity || now - c.last_activity > idle_timeout_ms
}

/// Sum of a counter is additive over a push.
proof fn lemma_sum_push(conns: Seq<Connection>, c: Connection, k: int)
    ensures
        sum_stat(conns.push(c), k) == sum_stat(conns, k) + stat(c.stats, k),
{
    assert(conns.push(c).drop_last() =~= conns);
}

/// Sums are not negative.
proof fn lemma_sum_nonneg(conns: Seq<Connection>, k: int)
    ensures
        sum_stat(conns, k) >= 0,
    decreases conns.len(),
{
    if conns.len() > 0 {
        lemma_sum_nonneg(conns.drop_last(), k);
    }
}

/// Closing a connection moves its counters into the totals: its counter
/// plus what the remaining connections hold is what all of them held.
pub proof fn lemma_close_moves_counters(conns: Seq<Connection>, i: int, k: int)
    requires
        0 <= i < conns.len(),
    ensures
        sum_stat(conns.remove(i), k) == sum_stat(conns, k) - stat(conns[i].stats, k),
    decreases conns.len(),
{
    if i == conns.len() - 1 {
        assert(conns.remove(i) =~= conns.drop_last());
    } else {
        let d = conns.drop_last();
        lemma_close_moves_counters(d, i, k);
        assert(conns.remove(i) =~= d.remove(i).push(conns.last()));
        lemma_sum_push(d.remove(i), conns.last(), k);
    }
}

/// Replacing one connection swaps its counter in the sum.
proof fn lemma_sum_update(conns: Seq<Connection>, i: int, c: Connection, k: int)
    requires
        0 <= i < conns.len(),
    ensures
        sum_stat(conns.update(i, c), k) == sum_stat(conns, k) - stat(conns[i].stats, k) + stat(c.stats, k),
    decreases conns.len(),
{
    if i == conns.len() - 1 {
        assert(conns.update(i, c).drop_last() =~= conns.drop_last());
    } else {
        let d = conns.drop_last();
        lemma_sum_update(d, i, c, k);
        assert(conns.update(i, c).drop_last() =~= d.update(i, c));
    }
}

/// Closing the idle connections moves their counters into the totals:
/// what the idle ones held plus what the others hold is what all held.
pub proof fn lemma_idle_close_moves_counters(conns: Seq<Connection>, now: i64, t: u64, k: int)
    ensures
        sum_stat(conns.filter(|c: Connection| is_idle(c, now, t)), k) <= sum_stat(conns, k),
        sum_stat(conns.filter(|c: Connection| is_idle(c, now, t)), k) + sum_stat(
            conns.filter(|c: Connection| !is_idle(c, now, t)),
            k,
        ) == sum_stat(conns, k),
    decreases conns.len(),
{
    reveal(Seq::filter);
    lemma_sum_nonneg(conns.filter(|c: Connection| !is_idle(c, now, t)), k);
    if conns.len() > 0 {
        let d = conns.drop_last();
        lemma_idle_close_moves_counters(d, now, t, k);
        let c = conns.last();
        if is_idle(c, now, t) {
            lemma_sum_push(d.filter(|c: Connection| is_idle(c, now, t)), c, k);
        } else {
            lemma_sum_push(d.filter(|c: Connection| !is_idle(c, now, t)), c, k);
        }
        lemma_sum_nonneg(conns.filter(|c: Connection| !is_idle(c, now, t)), k);
    }
}

impl Connection {
    /// A connected client with no traffic yet.
    pub fn new(id: u128, remote_addr: Vec<u8>, now: i64) -> (c: Self)
        ensures
            c.id == id,
            c.remote_addr@ == remote_addr@,
            c.connected_at == now,
            c.last_activity == now,
            c.stats == (ConnectionStats {
                messages_sent: 0,
                messages_received: 0,
                bytes_sent: 0,
                bytes_received: 0,
                last_ping_sent: None,
                last_pong_received: None,
                errors_count: 0,
            }),
            c.state == ConnectionState::Connected,
    {
        Connection {
            id,
            remote_addr,
            connected_at: now,
            last_activity: now,
            stats: ConnectionStats {
                messages_sent: 0,
                messages_received: 0,
                bytes_sent: 0,
                bytes_received: 0,
                last_ping_sent: None,
                last_pong_received: None,
                errors_count: 0,
            },
            state: ConnectionState::Connected,
        }
    }
}

/// Open connections, the node balancer, the pool that bounds them, and
/// the running totals.
pub struct ConnectionManager {
    pub connections: Vec<Connection>,
    pub load_balancer: LoadBalancer,
    pub connection_pool: ConnectionPool,
    pub metrics: ConnectionMetrics,
}

/// What the manager keeps true: ids are unique, every open connection was
/// counted as active, the peak is never below the active count, and the
/// totals can take in the open counters.
pub open spec fn manager_wf(m: ConnectionManager) -> bool {
    &&& connection_ids_unique(m.connections@)
    &&& m.connections@.len() <= m.metrics.active_connections
    &&& m.metrics.active_connections <= m.metrics.total_connections
    &&& m.metrics.active_connections <= m.metrics.peak_connections
    &&& totals_fit(m.metrics, m.connections@)
    &&& idle_ids_unique(m.connection_pool.idle_connections@)
}

/// Two lists of connections agree everywhere but at one position, where
/// the same client (id, address, connection time) stays.
pub open spec fn changed_only_at(a: Seq<Connection>, b: Seq<Connection>, i: int) -> bool {
    &&& a.len() == b.len()
    &&& 0 <= i < a.len()
    &&& forall|k: int| 0 <= k < a.len() && k != i ==> #[trigger] b[k] == a[k]
    &&& b[i].id == a[i].id
    &&& b[i].remote_addr@ == a[i].remote_addr@
    &&& b[i].connected_at == a[i].connected_at
    &&& b[i].state == a[i].state
}

/// Index of the connection with an id.
fn find_connection(conns: &Vec<Connection>, id: u128) -> (r: Option<usize>)
    requires
        connection_ids_unique(conns@),
    ensures
        r matches Some(i) ==> connection_position(conns@, id) == Some(i as int) && i < conns@.len(),
        r is None ==> connection_position(conns@, id) is None,
{
    let mut i: usize = 0;
    while i < conns.len()
        invariant
            i <= conns@.len(),
            connection_ids_unique(conns@),
            forall|k: int| 0 <= k < i ==> #[trigger] conns@[k].id != id,
        decreases conns@.len() - i,
    {
        if conns[i].id == id {
            proof {
                let c = choose|k: int| 0 <= k < conns@.len() && conns@[k].id == id;
                assert(conns@[c].id == conns@[i as int].id);
                if c != i as int {
                    if c < i as int {
                        assert(conns@[c].id != conns@[i as int].id);
                    } else {
                        assert(conns@[i as int].id != conns@[c].id);
                    }
                }
            }
            return Some(i);
        }
        i = i + 1;
    }
    None
}

impl ConnectionManager {
    /// A manager with no connections whose pool admits `max_connections`.
    pub fn new(max_connections: usize) -> (m: Self)
        ensures
            manager_wf(m),
            m.connections@.len() == 0,
            m.connection_pool.max_connections == max_connections,
            m.connection_pool.idle_connections@.len() == 0,
            m.metrics == (ConnectionMetrics {
                total_connections: 0,
                active_connections: 0,
                peak_connections: 0,
                total_messages_sent: 0,
                total_messages_received: 0,
                total_bytes_sent: 0,
                total_bytes_received: 0,
            }),
    {
        let m = ConnectionManager {
            connections: Vec::new(),
            load_balancer: LoadBalancer::new(),
            connection_pool: ConnectionPool::new(max_connections),
            metrics: ConnectionMetrics {
                total_connections: 0,
                active_connections: 0,
                peak_connections: 0,
                total_messages_sent: 0,
                total_messages_received: 0,
                total_bytes_sent: 0,
                total_bytes_received: 0,
            },
        };
        proof {
            assert(forall|k: int| 0 <= k < 4 ==> #[trigger] sum_stat(m.connections@, k) == 0);
        }
        m
    }

    /// Adds (or replaces, under the same id) a connection and counts it;
    /// refused when the pool takes no more.
    pub fn add_connection(&mut self, connection: Connection) -> (r: Result<(), ConnectionError>)
        requires
            manager_wf(*old(self)),
            old(self).metrics.total_connections < u64::MAX,
            totals_fit(old(self).metrics, old(self).connections@.push(connection)),
        ensures
            manager_wf(*final(self)),
            final(self).connection_pool.idle_connections@ == old(self).connection_pool.idle_connections@,
            final(self).connection_pool.max_connections == old(self).connection_pool.max_connections,
            old(self).connection_pool.idle_connections@.len() >= old(self).connection_pool.max_connections ==> {
                &&& r == Err::<(), ConnectionError>(ConnectionError::ConnectionLimitReached)
                &&& final(self).connections@ == old(self).connections@
                &&& final(self).metrics == old(self).metrics
            },
            old(self).connection_pool.idle_connections@.len() < old(self).connection_pool.max_connections ==> {
                &&& r is Ok
                &&& connection_position(old(self).connections@, connection.id) matches Some(i) ==> final(self).connections@
                    == old(self).connections@.update(i, connection)
                &&& connection_position(old(self).connections@, connection.id) is None ==> final(self).connections@
                    == old(self).connections@.push(connection)
                &&& final(self).metrics == (ConnectionMetrics {
                    total_connections: (old(self).metrics.total_connections + 1) as u64,
                    active_connections: (old(self).metrics.active_connections + 1) as u64,
                    peak_connections: if old(self).metrics.active_connections + 1 > old(self).metrics.peak_connections {
                        (old(self).metrics.active_connections + 1) as u64
                    } else {
                        old(self).metrics.peak_connections
                    },
                    ..old(self).metrics
                })
            },
    {
        if !self.connection_pool.can_add_connection() {
            return Err(ConnectionError::ConnectionLimitReached);
        }
        let ghost c0 = self.connections@;
        let id = connection.id;
        match find_connection(&self.connections, id) {
            Some(i) => {
                proof {
                    assert forall|k: int| 0 <= k < 4 implies #[trigger] total(self.metrics, k) + sum_stat(
                        c0.update(i as int, connection),
                        k,
                    ) <= u64::MAX by {
                        lemma_sum_update(c0, i as int, connection, k);
                        lemma_sum_push(c0, connection, k);
                        assert(stat(c0[i as int].stats, k) >= 0);
                    }
                }
                self.connections.set(i, connection);
                proof {
                    assert forall|a: int, b: int| 0 <= a < b < self.connections@.len()
                        implies self.connections@[a].id != self.connections@[b].id by {
                        assert(c0[a].id != c0[b].id);
                    }
                }
            },
            None => {
                self.connections.push(connection);
                proof {
                    assert forall|a: int, b: int| 0 <= a < b < self.connections@.len()
                        implies self.connections@[a].id != self.connections@[b].id by {
                        if b == c0.len() {
                            assert(c0[a].id != id);
                        } else {
                            assert(c0[a].id != c0[b].id);
                        }
                    }
                }
            },
        }
        self.metrics.total_connections = self.metrics.total_connections + 1;
        self.metrics.active_connections = self.metrics.active_connections + 1;
        if self.metrics.active_connections > self.metrics.peak_connections {
            self.metrics.peak_connections = self.metrics.active_connections;
        }
        proof {
            assert forall|k: int| 0 <= k < 4 implies #[trigger] total(self.metrics, k) + sum_stat(self.connections@, k) <= u64::MAX by {
                assert(total(self.metrics, k) == total(old(self).metrics, k));
            }
        }
        Ok(())
    }

    /// Closes a connection, if open, adding its traffic to the totals.
    pub fn remove_connection(&mut self, connection_id: u128) -> (r: Result<(), ConnectionError>)
        requires
            manager_wf(*old(self)),
        ensures
            r is Ok,
            manager_wf(*final(self)),
            final(self).connection_pool.idle_connections@ == old(self).connection_pool.idle_connections@,
            final(self).connection_pool.max_connections == old(self).connection_pool.max_connections,
            connection_position(old(self).connections@, connection_id) is None ==> {
                &&& final(self).connections@ == old(self).connections@
                &&& final(self).metrics == old(self).metrics
            },
            connection_position(old(self).connections@, connection_id) matches Some(i) ==> {
                let c = old(self).connections@[i];
                &&& final(self).connections@ == old(self).connections@.remove(i)
                &&& final(self).metrics == (ConnectionMetrics {
                    active_connections: (old(self).metrics.active_connections - 1) as u64,
                    total_messages_sent: (old(self).metrics.total_messages_sent + c.stats.messages_sent) as u64,
                    total_messages_received: (old(self).metrics.total_messages_received + c.stats.messages_received) as u64,
                    total_bytes_sent: (old(self).metrics.total_bytes_sent + c.stats.bytes_sent) as u64,
                    total_bytes_received: (old(self).metrics.total_bytes_received + c.stats.bytes_received) as u64,
                    ..old(self).metrics
                })
            },
    {
        match find_connection(&self.connections, connection_id) {
            None => Ok(()),
            Some(i) => {
                let ghost c0 = self.connections@;
                let ghost m0 = self.metrics;
                let c = self.connections.remove(i);
                proof {
                    assert forall|k: int| 0 <= k < 4 implies #[trigger] total(m0, k) + stat(c.stats, k) + sum_stat(
                        self.connections@,
                        k,
                    ) <= u64::MAX by {
                        lemma_close_moves_counters(c0, i as int, k);
                        lemma_sum_nonneg(self.connections@, k);
                    }
                    assert(total(m0, 0) + stat(c.stats, 0) + sum_stat(self.connections@, 0) <= u64::MAX);
                    assert(total(m0, 1) + stat(c.stats, 1) + sum_stat(self.connections@, 1) <= u64::MAX);
                    assert(total(m0, 2) + stat(c.stats, 2) + sum_stat(self.connections@, 2) <= u64::MAX);
                    assert(total(m0, 3) + stat(c.stats, 3) + sum_stat(self.connections@, 3) <= u64::MAX);
                    lemma_sum_nonneg(self.connections@, 0);
                    lemma_sum_nonneg(self.connections@, 1);
                    lemma_sum_nonneg(self.connections@, 2);
                    lemma_sum_nonneg(self.connections@, 3);
                }
                self.metrics.active_connections = self.metrics.active_connections - 1;
                self.metrics.total_messages_sent = self.metrics.total_messages_sent + c.stats.messages_sent;
                self.metrics.total_messages_received = self.metrics.total_messages_received + c.stats.messages_received;
                self.metrics.total_bytes_sent = self.metrics.total_bytes_sent + c.stats.bytes_sent;
                self.metrics.total_bytes_received = self.metrics.total_bytes_received + c.stats.bytes_received;
                proof {
                    assert forall|a: int, b: int| 0 <= a < b < self.connections@.len()
                        implies self.connections@[a].id != self.connections@[b].id by {
                        if a < i {
                            if b < i {
                                assert(c0[a].id != c0[b].id);
                            } else {
                                assert(c0[a].id != c0[b + 1].id);
                            }
                        } else {
                            assert(c0[a + 1].id != c0[b + 1].id);
                        }
                    }
                    assert forall|k: int| 0 <= k < 4 implies #[trigger] total(self.metrics, k) + sum_stat(self.connections@, k) <= u64::MAX by {
                        assert(total(self.metrics, k) == total(m0, k) + stat(c.stats, k));
                    }
                }
                Ok(())
            },
        }
    }

    /// The open connection with an id, if any.
    pub fn get_connection(&self, connection_id: u128) -> (r: Option<&Connection>)
        requires
            manager_wf(*self),
        ensures
            connection_position(self.connections@, connection_id) matches Some(i) ==> r == Some(&self.connections@[i]),
            connection_position(self.connections@, connection_id) is None ==> r is None,
    {
        match find_connection(&self.connections, connection_id) {
            Some(i) => Some(&self.connections[i]),
            None => None,
        }
    }

    /// Counts a message of `payload_len` bytes that was handed to a
    /// connection's channel at `now`; `ConnectionNotFound` when the
    /// connection is not open.
    pub fn record_message_sent(&mut self, connection_id: u128, payload_len: u64, now: i64) -> (r: Result<(), ConnectionError>)
        requires
            manager_wf(*old(self)),
            old(self).metrics.total_messages_sent + sum_stat(old(self).connections@, 0) + 1 <= u64::MAX,
            old(self).metrics.total_bytes_sent + sum_stat(old(self).connections@, 2) + payload_len <= u64::MAX,
        ensures
            manager_wf(*final(self)),
            final(self).metrics == old(self).metrics,
            final(self).connection_pool.idle_connections@ == old(self).connection_pool.idle_connections@,
            final(self).connection_pool.max_connections == old(self).connection_pool.max_connections,
            connection_position(old(self).connections@, connection_id) is None ==> r == Err::<(), ConnectionError>(
                ConnectionError::ConnectionNotFound,
            ) && final(self).connections@ == old(self).connections@,
            connection_position(old(self).connections@, connection_id) matches Some(i) ==> {
                &&& r is Ok
                &&& changed_only_at(old(self).connections@, final(self).connections@, i)
                &&& final(self).connections@[i].last_activity == now
                &&& final(self).connections@[i].stats == (ConnectionStats {
                    messages_sent: (old(self).connections@[i].stats.messages_sent + 1) as u64,
                    bytes_sent: (old(self).connections@[i].stats.bytes_sent + payload_len) as u64,
                    ..old(self).connections@[i].stats
                })
            },
    {
        match find_connection(&self.connections, connection_id) {
            None => Err(ConnectionError::ConnectionNotFound),
            Some(i) => {
                let ghost c0 = self.connections@;
                proof {
                    lemma_close_moves_counters(c0, i as int, 0);
                    lemma_close_moves_counters(c0, i as int, 2);
                    lemma_sum_nonneg(c0.remove(i as int), 0);
                    lemma_sum_nonneg(c0.remove(i as int), 2);
                }
                let mut c = self.connections.remove(i);
                c.stats.messages_sent = c.stats.messages_sent + 1;
                c.stats.bytes_sent = c.stats.bytes_sent + payload_len;
                c.last_activity = now;
                self.connections.insert(i, c);
                proof {
                    assert(self.connections@ =~= c0.update(i as int, c));
                    assert forall|a: int, b: int| 0 <= a < b < self.connections@.len()
                        implies self.connections@[a].id != self.connections@[b].id by {
                        assert(c0[a].id != c0[b].id);
                    }
                    assert forall|k: int| 0 <= k < 4 implies #[trigger] total(self.metrics, k) + sum_stat(self.connections@, k) <= u64::MAX by {
                        lemma_sum_update(c0, i as int, c, k);
                    }
                }
                Ok(())
            },
        }
    }

    /// Marks activity on a connection at `now`; `ConnectionNotFound` when
    /// the connection is not open.
    pub fn update_connection_activity(&mut self, connection_id: u128, now: i64) -> (r: Result<(), ConnectionError>)
        requires
            manager_wf(*old(self)),
        ensures
            manager_wf(*final(self)),
            final(self).metrics == old(self).metrics,
            final(self).connection_pool.idle_connections@ == old(self).connection_pool.idle_connections@,
            final(self).connection_pool.max_connections == old(self).connection_pool.max_connections,
            connection_position(old(self).connections@, connection_id) is None ==> r == Err::<(), ConnectionError>(
                ConnectionError::ConnectionNotFound,
            ) && final(self).connections@ == old(self).connections@,
            connection_position(old(self).connections@, connection_id) matches Some(i) ==> {
                &&& r is Ok
                &&& changed_only_at(old(self).connections@, final(self).connections@, i)
                &&& final(self).connections@[i].last_activity == now
                &&& final(self).connections@[i].stats == old(self).connections@[i].stats
            },
    {
        match find_connection(&self.connections, connection_id) {
            None => Err(ConnectionError::ConnectionNotFound),
            Some(i) => {
                let ghost c0 = self.connections@;
                let mut c = self.connections.remove(i);
                c.last_activity = now;
                self.connections.insert(i, c);
                proof {
                    assert(self.connections@ =~= c0.update(i as int, c));
                    assert forall|a: int, b: int| 0 <= a < b < self.connections@.len()
                        implies self.connections@[a].id != self.connections@[b].id by {
                        assert(c0[a].id != c0[b].id);
                    }
                    assert forall|k: int| 0 <= k < 4 implies #[trigger] total(self.metrics, k) + sum_stat(self.connections@, k) <= u64::MAX by {
                        lemma_sum_update(c0, i as int, c, k);
                    }
                }
                Ok(())
            },
        }
    }

    /// Closes every connection idle at `now` (see `is_idle`), adding their
    /// traffic to the totals; returns how many were closed.
    pub fn cleanup_idle_connections(&mut self, now: i64, idle_timeout_ms: u64) -> (r: Result<usize, ConnectionError>)
        requires
            manager_wf(*old(self)),
        ensures
            manager_wf(*final(self)),
            final(self).connection_pool.idle_connections@ == old(self).connection_pool.idle_connections@,
            final(self).connection_pool.max_connections == old(self).connection_pool.max_connections,
            final(self).connections@ == old(self).connections@.filter(|c: Connection| !is_idle(c, now, idle_timeout_ms)),
            r == Ok::<usize, ConnectionError>(
                (old(self).connections@.len() - final(self).connections@.len()) as usize,
            ),
            final(self).metrics.active_connections == old(self).metrics.active_connections - (old(self).connections@.len()
                - final(self).connections@.len()),
            forall|k: int| 0 <= k < 4 ==> #[trigger] total(final(self).metrics, k) == total(old(self).metrics, k)
                + sum_stat(old(self).connections@.filter(|c: Connection| is_idle(c, now, idle_timeout_ms)), k),
            final(self).metrics.total_connections == old(self).metrics.total_connections,
            final(self).metrics.peak_connections == old(self).metrics.peak_connections,
    {
        let ghost c0 = self.connections@;
        let ghost m0 = self.metrics;
        let mut kept: Vec<Connection> = Vec::new();
        let mut rest: Vec<Connection> = Vec::new();
        std::mem::swap(&mut rest, &mut self.connections);
        let n = rest.len();
        let mut i: usize = 0;
        let mut removed: usize = 0;
        proof {
            assert(c0.take(0) =~= Seq::<Connection>::empty());
            reveal(Seq::filter);
        }
        while rest.len() > 0
            invariant
                i + rest@.len() == n,
                n == c0.len(),
                rest@ == c0.skip(i as int),
                kept@ == c0.take(i as int).filter(|c: Connection| !is_idle(c, now, idle_timeout_ms)),
                removed == i - kept@.len(),
                kept@.len() <= i,
                self.metrics.active_connections == m0.active_connections - removed,
                self.metrics.total_connections == m0.total_connections,
                self.metrics.peak_connections == m0.peak_connections,
                forall|k: int| 0 <= k < 4 ==> #[trigger] total(self.metrics, k) == total(m0, k) + sum_stat(
                    c0.take(i as int).filter(|c: Connection| is_idle(c, now, idle_timeout_ms)),
                    k,
                ),
                totals_fit(m0, c0),
                c0.len() <= m0.active_connections,
                forall|a: int, b: int| 0 <= a < b < kept@.len() ==> kept@[a].id != kept@[b].id,
                forall|a: int| 0 <= a < kept@.len() ==> exists|k: int| 0 <= k < i && #[trigger] kept@[a] == c0[k],
                connection_ids_unique(c0),
                self.connection_pool.idle_connections@ == old(self).connection_pool.idle_connections@,
                self.connection_pool.max_connections == old(self).connection_pool.max_connections,
                idle_ids_unique(self.connection_pool.idle_connections@),
            decreases rest@.len(),
        {
            let c = rest.remove(0);
            let ghost t = c0.take(i as int);
            let ghost t1 = c0.take(i as int + 1);
            proof {
                assert(c == c0[i as int]);
                assert(t1.drop_last() == t);
                assert(t1.last() == c);
                assert(rest@ =~= c0.skip(i as int + 1));
                reveal(Seq::filter);
                lemma_idle_close_moves_counters(t, now, idle_timeout_ms, 0);
                lemma_idle_close_moves_counters(t1, now, idle_timeout_ms, 0);
                lemma_idle_close_moves_counters(c0, now, idle_timeout_ms, 0);
            }
            let idle = now < c.last_activity || (now as i128 - c.last_activity as i128) > idle_timeout_ms as i128;
            if idle {
                proof {
                    assert forall|k: int| 0 <= k < 4 implies #[trigger] total(m0, k) + sum_stat(t1.filter(|c: Connection| is_idle(c, now, idle_timeout_ms)), k) <= u64::MAX by {
                        lemma_idle_close_moves_counters(t1, now, idle_timeout_ms, k);
                        lemma_total_prefix_bound(c0, i as int + 1, k);
                        lemma_sum_nonneg(t1.filter(|c: Connection| !is_idle(c, now, idle_timeout_ms)), k);
                    }
                    lemma_sum_push(t.filter(|c: Connection| is_idle(c, now, idle_timeout_ms)), c, 0);
                    lemma_sum_push(t.filter(|c: Connection| is_idle(c, now, idle_timeout_ms)), c, 1);
                    lemma_sum_push(t.filter(|c: Connection| is_idle(c, now, idle_timeout_ms)), c, 2);
                    lemma_sum_push(t.filter(|c: Connection| is_idle(c, now, idle_timeout_ms)), c, 3);
                    assert(total(m0, 0) + sum_stat(t1.filter(|c: Connection| is_idle(c, now, idle_timeout_ms)), 0) <= u64::MAX);
                    assert(total(m0, 1) + sum_stat(t1.filter(|c: Connection| is_idle(c, now, idle_timeout_ms)), 1) <= u64::MAX);
                    assert(total(m0, 2) + sum_stat(t1.filter(|c: Connection| is_idle(c, now, idle_timeout_ms)), 2) <= u64::MAX);
                    assert(total(m0, 3) + sum_stat(t1.filter(|c: Connection| is_idle(c, now, idle_timeout_ms)), 3) <= u64::MAX);
                    lemma_sum_nonneg(t.filter(|c: Connection| is_idle(c, now, idle_timeout_ms)), 0);
                    assert(t1.filter(|c: Connection| is_idle(c, now, idle_timeout_ms))
                        == t.filter(|c: Connection| is_idle(c, now, idle_timeout_ms)).push(c));
                    assert(total(self.metrics, 0) == total(m0, 0) + sum_stat(t.filter(|c: Connection| is_idle(c, now, idle_timeout_ms)), 0));
                    assert(total(self.metrics, 1) == total(m0, 1) + sum_stat(t.filter(|c: Connection| is_idle(c, now, idle_timeout_ms)), 1));
                    assert(total(self.metrics, 2) == total(m0, 2) + sum_stat(t.filter(|c: Connection| is_idle(c, now, idle_timeout_ms)), 2));
                    assert(total(self.metrics, 3) == total(m0, 3) + sum_stat(t.filter(|c: Connection| is_idle(c, now, idle_timeout_ms)), 3));
                }
                self.metrics.active_connections = self.metrics.active_connections - 1;
                self.metrics.total_messages_sent = self.metrics.total_messages_sent + c.stats.messages_sent;
                self.metrics.total_messages_received = self.metrics.total_messages_received + c.stats.messages_received;
                self.metrics.total_bytes_sent = self.metrics.total_bytes_sent + c.stats.bytes_sent;
                self.metrics.total_bytes_received = self.metrics.total_bytes_received + c.stats.bytes_received;
                removed = removed + 1;
                proof {
                    assert forall|k: int| 0 <= k < 4 implies #[trigger] total(self.metrics, k) == total(m0, k) + sum_stat(
                        t1.filter(|c: Connection| is_idle(c, now, idle_timeout_ms)),
                        k,
                    ) by {
                        lemma_sum_push(t.filter(|c: Connection| is_idle(c, now, idle_timeout_ms)), c, k);
                    }
                }
            } else {
                proof {
                    assert forall|a: int| 0 <= a < kept@.len() implies kept@[a].id != c.id by {
                        let k = choose|k: int| 0 <= k < i && kept@[a] == c0[k];
                        assert(c0[k].id != c0[i as int].id);
                    }
                }
                kept.push(c);
                proof {
                    assert forall|a: int| 0 <= a < kept@.len() implies exists|k: int| 0 <= k < i + 1 && #[trigger] kept@[a] == c0[k] by {
                        if a == kept@.len() - 1 {
                            assert(kept@[a] == c0[i as int]);
                        } else {
                            let k = choose|k: int| 0 <= k < i && kept@[a] == c0[k];
                            assert(kept@[a] == c0[k]);
                        }
                    }
                }
            }
            i = i + 1;
        }
        proof {
            assert(c0.take(n as int) == c0);
            assert forall|k: int| 0 <= k < 4 implies #[trigger] total(self.metrics, k) + sum_stat(kept@, k) <= u64::MAX by {
                lemma_idle_close_moves_counters(c0, now, idle_timeout_ms, k);
            }
        }
        self.connections = kept;
        Ok(removed)
    }

    /// The running totals.
    pub fn get_metrics(&self) -> (m: ConnectionMetrics)
        ensures
            m == self.metrics,
    {
        self.metrics
    }

    /// Number of open connections.
    pub fn get_connection_count(&self) -> (n: usize)
        ensures
            n == self.connections@.len(),
    {
        self.connections.len()
    }

    /// Ids of the open connections, in the order they were added.
    pub fn get_active_connections(&self) -> (r: Vec<u128>)
        ensures
            r@ == self.connections@.map_values(|c: Connection| c.id),
    {
        let mut out: Vec<u128> = Vec::new();
        let mut k: usize = 0;
        while k < self.connections.len()
            invariant
                k <= self.connections@.len(),
                out@ == self.connections@.take(k as int).map_values(|c: Connection| c.id),
            decreases self.connections@.len() - k,
        {
            out.push(self.connections[k].id);
            proof {
                assert(self.connections@.take(k as int + 1).map_values(|c: Connection| c.id)
                    =~= self.connections@.take(k as int).map_values(|c: Connection| c.id).push(self.connections@[k as int].id));
            }
            k = k + 1;
        }
        proof {
            assert(self.connections@.take(self.connections@.len() as int) == self.connections@);
        }
        out
    }
}

/// A prefix's sum is at most the whole sum.
proof fn lemma_total_prefix_bound(conns: Seq<Connection>, n: int, k: int)
    requires
        0 <= n <= conns.len(),
    ensures
        sum_stat(conns.take(n), k) <= sum_stat(conns, k),
    decreases conns.len(),
{
    if n < conns.len() {
        assert(conns.drop_last().take(n) == conns.take(n));
        lemma_total_prefix_bound(conns.drop_last(), n, k);
    } else {
        assert(conns.take(n) == conns);
    }
}

} // verus!
