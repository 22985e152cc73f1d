//! Choice of a server node for a new client connection: among the healthy
//! nodes with spare capacity, by round robin, fewest connections, weighted
//! round robin, or a hash of the time.
use vstd::prelude::*;

verus! {

/// State of a client connection.
#[derive(Clone, Copy, Debug, PartialEq, Eq, Structural)]
pub enum ConnectionState {
    Connecting,
    Connected,
    Disconnecting,
    Disconnected,
}

/// How the next node is chosen.
#[derive(Clone, Copy, Debug, PartialEq, Eq, Structural)]
pub enum LoadBalancingStrategy {
    RoundRobin,
    LeastConnections,
    WeightedRoundRobin,
    IPHash,
}

/// A server that takes client connections.
#[derive(Clone, Copy, Debug, PartialEq, Eq, Structural)]
pub struct ServerNode {
    pub id: u64,
    pub weight: u32,
    pub current_connections: u32,
    pub max_connections: u32,
    pub is_healthy: bool,
    /// Time of the last health check (seconds since the epoch)
    pub last_health_check: i64,
}

/// Nodes and the rotation counter of the round-robin strategies.
pub struct LoadBalancer {
    pub strategy: LoadBalancingStrategy,
    pub server_nodes: Vec<ServerNode>,
    pub current_index: usize,
}

/// A node that can take another connection.
pub open spec fn available(n: ServerNode) -> bool {
    n.is_healthy && n.current_connections < n.max_connections
}

/// Indices of the available nodes, in order.
pub open spec fn available_indices(nodes: Seq<ServerNode>) -> Seq<usize>
    decreases nodes.len(),
{
    if nodes.len() == 0 {
        Seq::empty()
    } else if available(nodes.last()) {
        available_indices(nodes.drop_last()).push((nodes.len() - 1) as usize)
    } else {
        available_indices(nodes.drop_last())
    }
}

/// Total weight of the nodes at the given indices.
pub open spec fn weight_of(nodes: Seq<ServerNode>, idx: Seq<usize>) -> int
    decreases idx.len(),
{
    if idx.len() == 0 { 0 } else { nodes[idx[0] as int].weight + weight_of(nodes, idx.drop_first()) }
}

/// The node at position `k` when each listed node is repeated as many
/// times as its weight, in order.
pub open spec fn weighted_pick(nodes: Seq<ServerNode>, idx: Seq<usize>, k: int) -> usize
    decreases idx.len(),
{
    if idx.len() == 0 {
        0
    } else if k < nodes[idx[0] as int].weight {
        idx[0]
    } else {
        weighted_pick(nodes, idx.drop_first(), k - nodes[idx[0] as int].weight)
    }
}

/// The weight of a list is the weight of a prefix plus the weight of the rest.
proof fn lemma_weight_split(nodes: Seq<ServerNode>, idx: Seq<usize>, j: int)
    requires
        0 <= j <= idx.len(),
    ensures
        weight_of(nodes, idx) == weight_of(nodes, idx.take(j)) + weight_of(nodes, idx.skip(j)),
        weight_of(nodes, idx.take(j)) >= 0,
        weight_of(nodes, idx.skip(j)) >= 0,
    decreases j,
{
    if j == 0 {
        assert(idx.take(0) =~= Seq::<usize>::empty());
        assert(idx.skip(0) =~= idx);
        lemma_weight_nonneg(nodes, idx);
    } else {
        let d = idx.drop_first();
        lemma_weight_split(nodes, d, j - 1);
        assert(idx.take(j).drop_first() =~= d.take(j - 1));
        assert(idx.skip(j) =~= d.skip(j - 1));
        assert(idx.take(j)[0] == idx[0]);
    }
}

/// Weights are never negative.
proof fn lemma_weight_nonneg(nodes: Seq<ServerNode>, idx: Seq<usize>)
    ensures
        weight_of(nodes, idx) >= 0,
    decreases idx.len(),
{
    if idx.len() > 0 {
        lemma_weight_nonneg(nodes, idx.drop_first());
    }
}

/// The first of the listed nodes with the fewest connections.
pub open spec fn least_loaded(nodes: Seq<ServerNode>, idx: Seq<usize>) -> usize
    decreases idx.len(),
{
    if idx.len() <= 1 {
        if idx.len() == 1 { idx[0] } else { 0 }
    } else {
        let best = least_loaded(nodes, idx.drop_last());
        if nodes[idx.last() as int].current_connections < nodes[best as int].current_connections {
            idx.last()
        } else {
            best
        }
    }
}

/// Index of the node chosen by a strategy, given the rotation counter and
/// the time: `None` when no node is available.
pub open spec fn chosen(
    strategy: LoadBalancingStrategy,
    nodes: Seq<ServerNode>,
    counter: usize,
    now: i64,
) -> Option<usize> {
    let idx = available_indices(nodes);
    if idx.len() == 0 {
        None
    } else {
        Some(
            match strategy {
                LoadBalancingStrategy::RoundRobin => idx[counter as int % idx.len() as int],
                LoadBalancingStrategy::LeastConnections => least_loaded(nodes, idx),
                LoadBalancingStrategy::WeightedRoundRobin => weighted_pick(
                    nodes,
                    idx,
                    counter as int % weight_of(nodes, idx),
                ),
                LoadBalancingStrategy::IPHash => idx[(now as usize) as int % idx.len() as int],
            },
        )
    }
}

/// The counter after a choice: round-robin strategies advance it by one
/// (wrapping); the others leave it.
pub open spec fn counter_after(strategy: LoadBalancingStrategy, nodes: Seq<ServerNode>, counter: usize) -> usize {
    if available_indices(nodes).len() > 0 && (strategy == LoadBalancingStrategy::RoundRobin || strategy
        == LoadBalancingStrategy::WeightedRoundRobin) {
        if counter == usize::MAX { 0 } else { (counter + 1) as usize }
    } else {
        counter
    }
}

/// Every listed index points to an available node of the list.
proof fn lemma_available_indices(nodes: Seq<ServerNode>)
    requires
        nodes.len() <= usize::MAX,
    ensures
        forall|k: int| 0 <= k < available_indices(nodes).len() ==> {
            &&& (#[trigger] available_indices(nodes)[k]) < nodes.len()
            &&& available(nodes[available_indices(nodes)[k] as int])
        },
    decreases nodes.len(),
{
    if nodes.len() > 0 {
        let d = nodes.drop_last();
        lemma_available_indices(d);
        let prev = available_indices(d);
        assert forall|k: int| 0 <= k < prev.len() implies {
            &&& (#[trigger] prev[k]) < nodes.len() - 1
            &&& nodes[prev[k] as int] == d[prev[k] as int]
            &&& available(nodes[prev[k] as int])
        } by {
            assert(available_indices(d)[k] == prev[k]);
        }
        if available(nodes.last()) {
            let cur = prev.push((nodes.len() - 1) as usize);
            assert(available_indices(nodes) == cur);
            assert forall|k: int| 0 <= k < cur.len() implies {
                &&& (#[trigger] cur[k]) < nodes.len()
                &&& available(nodes[cur[k] as int])
            } by {
                if k < prev.len() {
                    assert(cur[k] == prev[k]);
                }
            }
        } else {
            assert(available_indices(nodes) == prev);
        }
    }
}

impl LoadBalancer {
    /// A balancer with no nodes, choosing by fewest connections.
    pub fn new() -> (b: Self)
        ensures
            b.strategy == LoadBalancingStrategy::LeastConnections,
            b.server_nodes@.len() == 0,
            b.current_index == 0,
    {
        LoadBalancer { strategy: LoadBalancingStrategy::LeastConnections, server_nodes: Vec::new(), current_index: 0 }
    }

    /// Adds a node.
    pub fn add_node(&mut self, node: ServerNode)
        ensures
            final(self).server_nodes@ == old(self).server_nodes@.push(node),
            final(self).strategy == old(self).strategy,
            final(self).current_index == old(self).current_index,
    {
        self.server_nodes.push(node);
    }

    /// Removes every node with the given id, keeping the others in order.
    pub fn remove_node(&mut self, node_id: u64)
        ensures
            final(self).server_nodes@ == old(self).server_nodes@.filter(|n: ServerNode| n.id != node_id),
            final(self).strategy == old(self).strategy,
            final(self).current_index == old(self).current_index,
    {
        let ghost s = self.server_nodes@;
        let mut kept: Vec<ServerNode> = Vec::new();
        let mut i: usize = 0;
        while i < self.server_nodes.len()
            invariant
                self.server_nodes@ == s,
                i <= s.len(),
                kept@ == s.take(i as int).filter(|n: ServerNode| n.id != node_id),
            decreases s.len() - i,
        {
            proof {
                assert(s.take(i as int + 1).drop_last() == s.take(i as int));
                reveal(Seq::filter);
            }
            let n = self.server_nodes[i];
            if n.id != node_id {
                kept.push(n);
            }
            i = i + 1;
        }
        proof {
            assert(s.take(s.len() as int) == s);
        }
        self.server_nodes = kept;
    }

    /// Marks every node healthy as of `now` (the check itself always passes).
    pub fn health_check(&mut self, now: i64)
        ensures
            final(self).server_nodes@.len() == old(self).server_nodes@.len(),
            forall|k: int| 0 <= k < old(self).server_nodes@.len() ==> #[trigger] final(self).server_nodes@[k] == (ServerNode {
                is_healthy: true,
                last_health_check: now,
                ..old(self).server_nodes@[k]
            }),
            final(self).strategy == old(self).strategy,
            final(self).current_index == old(self).current_index,
    {
        let ghost s = self.server_nodes@;
        let mut out: Vec<ServerNode> = Vec::new();
        let mut i: usize = 0;
        while i < self.server_nodes.len()
            invariant
                self.server_nodes@ == s,
                i <= s.len(),
                out@.len() == i,
                forall|k: int| 0 <= k < i ==> #[trigger] out@[k] == (ServerNode { is_healthy: true, last_health_check: now, ..s[k] }),
            decreases s.len() - i,
        {
            let n = self.server_nodes[i];
            out.push(ServerNode { is_healthy: true, last_health_check: now, ..n });
            i = i + 1;
        }
        self.server_nodes = out;
    }

    /// The node at position `target` of the weighted expansion of the listed nodes.
    fn weighted_choice(nodes: &Vec<ServerNode>, idx: &Vec<usize>, target: u32, total: u32) -> (r: usize)
        requires
            total == weight_of(nodes@, idx@),
            target < total,
            forall|k: int| 0 <= k < idx@.len() ==> (#[trigger] idx@[k]) < nodes@.len(),
        ensures
            r == weighted_pick(nodes@, idx@, target as int),
    {
        let mut acc: u32 = 0;
        let mut m: usize = 0;
        assert(idx@.skip(0) =~= idx@);
        while m < idx.len()
            invariant
                total == weight_of(nodes@, idx@),
                target < total,
                forall|k: int| 0 <= k < idx@.len() ==> (#[trigger] idx@[k]) < nodes@.len(),
                m <= idx@.len(),
                acc == weight_of(nodes@, idx@.take(m as int)),
                acc <= target,
                weighted_pick(nodes@, idx@, target as int) == weighted_pick(nodes@, idx@.skip(m as int), target - acc),
            decreases idx@.len() - m,
        {
            proof {
                lemma_weight_split(nodes@, idx@, m as int);
                let rest = idx@.skip(m as int);
                assert(rest[0] == idx@[m as int]);
                assert(rest.drop_first() =~= idx@.skip(m as int + 1));
                let t = idx@.take(m as int + 1);
                lemma_weight_split(nodes@, t, m as int);
                assert(t.take(m as int) =~= idx@.take(m as int));
                assert(t.skip(m as int) =~= seq![idx@[m as int]]);
                assert(seq![idx@[m as int]].drop_first() =~= Seq::<usize>::empty());
                assert(weight_of(nodes@, Seq::<usize>::empty()) == 0);
                assert(seq![idx@[m as int]][0] == idx@[m as int]);
                assert(weight_of(nodes@, seq![idx@[m as int]]) == nodes@[idx@[m as int] as int].weight);
                lemma_weight_split(nodes@, idx@, m as int + 1);
            }
            let w = nodes[idx[m]].weight;
            if target - acc < w {
                return idx[m];
            }
            acc = acc + w;
            m = m + 1;
        }
        proof {
            assert(idx@.take(idx@.len() as int) == idx@);
        }
        idx[0]
    }

    /// Index of the node for the next connection, by the strategy, among
    /// the available nodes (`None` when there is none); round-robin
    /// strategies advance the counter. The weighted strategy needs the
    /// available nodes' weights to total between 1 and `u32::MAX`.
    pub fn get_next_node(&mut self, now: i64) -> (r: Option<usize>)
        requires
            old(self).strategy == LoadBalancingStrategy::WeightedRoundRobin && available_indices(
                old(self).server_nodes@,
            ).len() > 0 ==> 0 < weight_of(old(self).server_nodes@, available_indices(old(self).server_nodes@))
                <= u32::MAX,
        ensures
            r == chosen(old(self).strategy, old(self).server_nodes@, old(self).current_index, now),
            final(self).current_index == counter_after(old(self).strategy, old(self).server_nodes@, old(self).current_index),
            final(self).server_nodes@ == old(self).server_nodes@,
            final(self).strategy == old(self).strategy,
    {
        let ghost nodes = self.server_nodes@;
        let mut healthy: Vec<usize> = Vec::new();
        let mut i: usize = 0;
        while i < self.server_nodes.len()
            invariant
                self.server_nodes@ == nodes,
                i <= nodes.len(),
                healthy@ == available_indices(nodes.take(i as int)),
            decreases nodes.len() - i,
        {
            proof {
                assert(nodes.take(i as int + 1).drop_last() == nodes.take(i as int));
            }
            let n = self.server_nodes[i];
            if n.is_healthy && n.current_connections < n.max_connections {
                healthy.push(i);
            }
            i = i + 1;
        }
        proof {
            assert(nodes.take(nodes.len() as int) == nodes);
            lemma_available_indices(nodes);
        }
        if healthy.len() == 0 {
            return None;
        }
        match self.strategy {
            LoadBalancingStrategy::RoundRobin => {
                let k = self.current_index % healthy.len();
                self.current_index = if self.current_index == usize::MAX { 0 } else { self.current_index + 1 };
                Some(healthy[k])
            },
            LoadBalancingStrategy::LeastConnections => {
                let mut best: usize = healthy[0];
                let mut j: usize = 1;
                proof {
                    assert(healthy@.take(1).len() == 1);
                    assert(least_loaded(nodes, healthy@.take(1)) == healthy@[0]);
                }
                while j < healthy.len()
                    invariant
                        self.server_nodes@ == nodes,
                        healthy@ == available_indices(nodes),
                        1 <= j <= healthy@.len(),
                        best == least_loaded(nodes, healthy@.take(j as int)),
                        forall|k: int| 0 <= k < healthy@.len() ==> (#[trigger] healthy@[k]) < nodes.len(),
                        best < nodes.len(),
                    decreases healthy@.len() - j,
                {
                    proof {
                        assert(healthy@.take(j as int + 1).drop_last() == healthy@.take(j as int));
                    }
                    let h = healthy[j];
                    if self.server_nodes[h].current_connections < self.server_nodes[best].current_connections {
                        best = h;
                    }
                    j = j + 1;
                }
                proof {
                    assert(healthy@.take(healthy@.len() as int) == healthy@);
                }
                Some(best)
            },
            LoadBalancingStrategy::WeightedRoundRobin => {
                let mut total: u32 = 0;
                let mut j: usize = 0;
                while j < healthy.len()
                    invariant
                        self.server_nodes@ == nodes,
                        healthy@ == available_indices(nodes),
                        0 < weight_of(nodes, healthy@) <= u32::MAX,
                        j <= healthy@.len(),
                        total == weight_of(nodes, healthy@.take(j as int)),
                        forall|k: int| 0 <= k < healthy@.len() ==> (#[trigger] healthy@[k]) < nodes.len(),
                    decreases healthy@.len() - j,
                {
                    proof {
                        let t = healthy@.take(j as int + 1);
                        lemma_weight_split(nodes, t, j as int);
                        assert(t.take(j as int) =~= healthy@.take(j as int));
                        assert(t.skip(j as int) =~= seq![healthy@[j as int]]);
                        assert(seq![healthy@[j as int]].drop_first() =~= Seq::<usize>::empty());
                        assert(weight_of(nodes, Seq::<usize>::empty()) == 0);
                        assert(seq![healthy@[j as int]][0] == healthy@[j as int]);
                        assert(weight_of(nodes, seq![healthy@[j as int]]) == nodes[healthy@[j as int] as int].weight);
                        lemma_weight_split(nodes, healthy@, j as int + 1);
                    }
                    total = total + self.server_nodes[healthy[j]].weight;
                    j = j + 1;
                }
                proof {
                    assert(healthy@.take(healthy@.len() as int) == healthy@);
                }
                let target: u32 = (self.current_index % (total as usize)) as u32;
                let pick = Self::weighted_choice(&self.server_nodes, &healthy, target, total);
                self.current_index = if self.current_index == usize::MAX { 0 } else { self.current_index + 1 };
                Some(pick)
            },
            LoadBalancingStrategy::IPHash => {
                let k = (#[verifier::truncate] (now as usize)) % healthy.len();
                Some(healthy[k])
            },
        }
    }
}

} // verus!
