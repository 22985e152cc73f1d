//! Bookkeeping of the market-data sources: which sources are registered,
//! up to a limit, and counters of what they delivered. Connecting to a
//! source, fetching from it and disconnecting are done by the service that
//! owns the sources; it reports each outcome here, and sources and symbols
//! are named by number.
use vstd::prelude::*;

verus! {

/// Errors of the source manager.
#[derive(Clone, Copy, Debug, PartialEq, Eq, Structural)]
pub enum DataSourceError {
    /// The configured number of sources is reached.
    MaxSourcesReached,
    /// No source with the id.
    SourceNotFound,
    /// Connecting to the source failed.
    ConnectFailed,
    /// Disconnecting from the source failed.
    DisconnectFailed,
}

/// Settings of the source manager.
#[derive(Clone, Copy, Debug, PartialEq, Eq, Structural)]
pub struct DataSourceConfig {
    pub max_sources: usize,
    pub connection_timeout_ms: u64,
    pub heartbeat_interval_ms: u64,
    pub retry_attempts: u32,
    pub retry_delay_ms: u64,
    pub enable_fallback: bool,
}

impl Default for DataSourceConfig {
    fn default() -> (c: Self)
        ensures
            c == (DataSourceConfig {
                max_sources: 10,
                connection_timeout_ms: 5000,
                heartbeat_interval_ms: 30000,
                retry_attempts: 3,
                retry_delay_ms: 1000,
                enable_fallback: true,
            }),
    {
        DataSourceConfig {
            max_sources: 10,
            connection_timeout_ms: 5000,
            heartbeat_interval_ms: 30000,
            retry_attempts: 3,
            retry_delay_ms: 1000,
            enable_fallback: true,
        }
    }
}

/// Counters of the sources.
#[derive(Clone, Copy, Debug, PartialEq, Eq, Structural)]
pub struct DataSourceStats {
    pub total_sources: usize,
    pub connected_sources: usize,
    pub total_messages_received: u64,
    pub total_messages_sent: u64,
    pub error_count: u64,
}

/// Registered sources in the order they were added, with the settings and
/// counters.
pub struct DataSourceManager {
    pub sources: Vec<u64>,
    pub config: DataSourceConfig,
    pub stats: DataSourceStats,
}

/// What the manager keeps true: no source twice, and every registered
/// source counted as added and connected.
pub open spec fn sources_wf(m: DataSourceManager) -> bool {
    &&& forall|i: int, j: int| 0 <= i < j < m.sources@.len() ==> m.sources@[i] != m.sources@[j]
    &&& m.sources@.len() <= m.stats.total_sources
    &&& m.sources@.len() <= m.stats.connected_sources
}

/// How many outcomes are successes.
pub open spec fn successes(outcomes: Seq<bool>) -> nat
    decreases outcomes.len(),
{
    if outcomes.len() == 0 {
        0
    } else {
        successes(outcomes.drop_last()) + if outcomes.last() { 1nat } else { 0nat }
    }
}

/// Positions of the fetches that delivered data of a symbol, in order.
pub open spec fn delivered_for(fetched: Seq<Option<u64>>, symbol: u64) -> Seq<usize>
    decreases fetched.len(),
{
    if fetched.len() == 0 {
        Seq::empty()
    } else if fetched.last() == Some(symbol) {
        delivered_for(fetched.drop_last(), symbol).push((fetched.len() - 1) as usize)
    } else {
        delivered_for(fetched.drop_last(), symbol)
    }
}

/// Position of a source id.
fn find_source(sources: &Vec<u64>, source_id: u64) -> (r: Option<usize>)
    ensures
        r matches Some(i) ==> i < sources@.len() && sources@[i as int] == source_id,
        r is None ==> !sources@.contains(source_id),
{
    let mut i: usize = 0;
    while i < sources.len()
        invariant
            i <= sources@.len(),
            forall|k: int| 0 <= k < i ==> sources@[k] != source_id,
        decreases sources@.len() - i,
    {
        if sources[i] == source_id {
            return Some(i);
        }
        i = i + 1;
    }
    None
}

impl DataSourceManager {
    /// A manager with no sources.
    pub fn new(config: DataSourceConfig) -> (m: Self)
        ensures
            sources_wf(m),
            m.sources@.len() == 0,
            m.config == config,
            m.stats == (DataSourceStats {
                total_sources: 0,
                connected_sources: 0,
                total_messages_received: 0,
                total_messages_sent: 0,
                error_count: 0,
            }),
    {
        DataSourceManager {
            sources: Vec::new(),
            config,
            stats: DataSourceStats {
                total_sources: 0,
                connected_sources: 0,
                total_messages_received: 0,
                total_messages_sent: 0,
                error_count: 0,
            },
        }
    }

    /// Whether another source may be added (asked before connecting to it).
    pub fn admit_source(&self) -> (r: Result<(), DataSourceError>)
        ensures
            r is Ok <==> self.sources@.len() < self.config.max_sources,
            r is Err ==> r == Err::<(), DataSourceError>(DataSourceError::MaxSourcesReached),
    {
        if self.sources.len() >= self.config.max_sources {
            Err(DataSourceError::MaxSourcesReached)
        } else {
            Ok(())
        }
    }

    /// Registers a source once the connection attempt has been made:
    /// refused when the limit is reached, or when `connected` reports that
    /// connecting failed; otherwise the source is registered (once) and
    /// counted as added and connected.
    pub fn add_source(&mut self, source_id: u64, connected: bool) -> (r: Result<(), DataSourceError>)
        requires
            sources_wf(*old(self)),
            old(self).stats.total_sources < usize::MAX,
            old(self).stats.connected_sources < usize::MAX,
        ensures
            sources_wf(*final(self)),
            final(self).config == old(self).config,
            old(self).sources@.len() >= old(self).config.max_sources ==> r == Err::<(), DataSourceError>(
                DataSourceError::MaxSourcesReached,
            ) && final(self).sources@ == old(self).sources@ && final(self).stats == old(self).stats,
            old(self).sources@.len() < old(self).config.max_sources && !connected ==> r == Err::<(), DataSourceError>(
                DataSourceError::ConnectFailed,
            ) && final(self).sources@ == old(self).sources@ && final(self).stats == old(self).stats,
            old(self).sources@.len() < old(self).config.max_sources && connected ==> {
                &&& r is Ok
                &&& old(self).sources@.contains(source_id) ==> final(self).sources@ == old(self).sources@
                &&& !old(self).sources@.contains(source_id) ==> final(self).sources@ == old(self).sources@.push(source_id)
                &&& final(self).stats == (DataSourceStats {
                    total_sources: (old(self).stats.total_sources + 1) as usize,
                    connected_sources: (old(self).stats.connected_sources + 1) as usize,
                    ..old(self).stats
                })
            },
    {
        if self.sources.len() >= self.config.max_sources {
            return Err(DataSourceError::MaxSourcesReached);
        }
        if !connected {
            return Err(DataSourceError::ConnectFailed);
        }
        match find_source(&self.sources, source_id) {
            Some(_) => {},
            None => {
                let ghost s0 = self.sources@;
                self.sources.push(source_id);
                proof {
                    assert forall|i: int, j: int| 0 <= i < j < self.sources@.len() implies self.sources@[i] != self.sources@[j] by {
                        if j == s0.len() {
                            assert(s0[i] != source_id);
                        } else {
                            assert(s0[i] != s0[j]);
                        }
                    }
                }
            },
        }
        self.stats.total_sources = self.stats.total_sources + 1;
        self.stats.connected_sources = self.stats.connected_sources + 1;
        Ok(())
    }

    /// Unregisters a source, given whether disconnecting from it worked:
    /// `SourceNotFound` for an unknown source; the source is removed either
    /// way, and counted out only when it disconnected.
    pub fn remove_source(&mut self, source_id: u64, disconnected: bool) -> (r: Result<(), DataSourceError>)
        requires
            sources_wf(*old(self)),
        ensures
            sources_wf(*final(self)),
            final(self).config == old(self).config,
            !old(self).sources@.contains(source_id) ==> r == Err::<(), DataSourceError>(DataSourceError::SourceNotFound)
                && final(self).sources@ == old(self).sources@ && final(self).stats == old(self).stats,
            old(self).sources@.contains(source_id) ==> {
                &&& final(self).sources@ == old(self).sources@.remove(old(self).sources@.index_of(source_id))
                &&& !final(self).sources@.contains(source_id)
                &&& !disconnected ==> r == Err::<(), DataSourceError>(DataSourceError::DisconnectFailed)
                    && final(self).stats == old(self).stats
                &&& disconnected ==> r is Ok && final(self).stats == (DataSourceStats {
                    total_sources: (old(self).stats.total_sources - 1) as usize,
                    connected_sources: (old(self).stats.connected_sources - 1) as usize,
                    ..old(self).stats
                })
            },
    {
        match find_source(&self.sources, source_id) {
            None => Err(DataSourceError::SourceNotFound),
            Some(i) => {
                let ghost s0 = self.sources@;
                proof {
                    assert forall|k: int| 0 <= k < s0.len() && s0[k] == source_id implies k == i as int by {
                        if k != i as int {
                            if k < i as int {
                                assert(s0[k] != s0[i as int]);
                            } else {
                                assert(s0[i as int] != s0[k]);
                            }
                        }
                    }
                    assert(s0.index_of(source_id) == i as int);
                }
                self.sources.remove(i);
                proof {
                    assert forall|a: int, b: int| 0 <= a < b < self.sources@.len() implies self.sources@[a] != self.sources@[b] by {
                        if a < i as int {
                            if b < i as int {
                                assert(s0[a] != s0[b]);
                            } else {
                                assert(s0[a] != s0[b + 1]);
                            }
                        } else {
                            assert(s0[a + 1] != s0[b + 1]);
                        }
                    }
                    assert forall|k: int| 0 <= k < self.sources@.len() implies self.sources@[k] != source_id by {
                        if k < i as int {
                            assert(self.sources@[k] == s0[k]);
                        } else {
                            assert(self.sources@[k] == s0[k + 1]);
                        }
                    }
                }
                if !disconnected {
                    return Err(DataSourceError::DisconnectFailed);
                }
                self.stats.total_sources = self.stats.total_sources - 1;
                self.stats.connected_sources = self.stats.connected_sources - 1;
                Ok(())
            },
        }
    }

    /// Of one fetch per source, the positions of those that delivered data
    /// of `symbol` (failed fetches are `None`), in order.
    pub fn get_aggregated_data(&self, symbol: u64, fetched: &Vec<Option<u64>>) -> (r: Result<Vec<usize>, DataSourceError>)
        ensures
            r matches Ok(v) && v@ == delivered_for(fetched@, symbol),
    {
        let mut out: Vec<usize> = Vec::new();
        let mut i: usize = 0;
        while i < fetched.len()
            invariant
                i <= fetched@.len(),
                out@ == delivered_for(fetched@.take(i as int), symbol),
            decreases fetched@.len() - i,
        {
            proof {
                assert(fetched@.take(i as int + 1).drop_last() == fetched@.take(i as int));
            }
            match fetched[i] {
                Some(s) => {
                    if s == symbol {
                        out.push(i);
                    }
                },
                None => {},
            }
            i = i + 1;
        }
        proof {
            assert(fetched@.take(fetched@.len() as int) == fetched@);
        }
        Ok(out)
    }

    /// Counts one collection round: each source's fetch either delivered a
    /// message or failed.
    pub fn record_collection_round(&mut self, outcomes: &Vec<bool>)
        requires
            old(self).stats.total_messages_received + outcomes@.len() <= u64::MAX,
            old(self).stats.error_count + outcomes@.len() <= u64::MAX,
        ensures
            final(self).sources@ == old(self).sources@,
            final(self).config == old(self).config,
            final(self).stats == (DataSourceStats {
                total_messages_received: (old(self).stats.total_messages_received + successes(outcomes@)) as u64,
                error_count: (old(self).stats.error_count + (outcomes@.len() - successes(outcomes@))) as u64,
                ..old(self).stats
            }),
    {
        let mut i: usize = 0;
        while i < outcomes.len()
            invariant
                i <= outcomes@.len(),
                self.sources@ == old(self).sources@,
                self.config == old(self).config,
                old(self).stats.total_messages_received + outcomes@.len() <= u64::MAX,
                old(self).stats.error_count + outcomes@.len() <= u64::MAX,
                self.stats == (DataSourceStats {
                    total_messages_received: (old(self).stats.total_messages_received + successes(outcomes@.take(i as int))) as u64,
                    error_count: (old(self).stats.error_count + (i - successes(outcomes@.take(i as int)))) as u64,
                    ..old(self).stats
                }),
                successes(outcomes@.take(i as int)) <= i,
            decreases outcomes@.len() - i,
        {
            proof {
                assert(outcomes@.take(i as int + 1).drop_last() == outcomes@.take(i as int));
                assert(outcomes@.take(i as int + 1).last() == outcomes@[i as int]);
            }
            if outcomes[i] {
                self.stats.total_messages_received = self.stats.total_messages_received + 1;
            } else {
                self.stats.error_count = self.stats.error_count + 1;
            }
            i = i + 1;
        }
        proof {
            assert(outcomes@.take(outcomes@.len() as int) == outcomes@);
        }
    }

    /// The counters.
    pub fn get_statistics(&self) -> (s: DataSourceStats)
        ensures
            s == self.stats,
    {
        self.stats
    }
}

} // verus!
