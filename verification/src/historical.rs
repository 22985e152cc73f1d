//! Replay of stored market data: a session walks through the timestamps of
//! its data points (the points themselves stay with the storage service),
//! can be started, paused, sought to a time and stepped, and sessions
//! expire a day after creation.
use vstd::prelude::*;

verus! {

/// Seconds a replay session lives.
pub const SESSION_LIFETIME_SECONDS: i64 = 86400;

/// Formats data can be exported in.
#[derive(Clone, Copy, Debug, PartialEq, Eq, Structural)]
pub enum ExportFormat {
    Json,
    Csv,
    Binary,
}

/// Errors of replay operations.
#[derive(Clone, Copy, Debug, PartialEq, Eq, Structural)]
pub enum ReplayError {
    /// The session limit is reached.
    TooManySessions,
    /// No data for the request.
    NoData,
    /// No session with the id.
    SessionNotFound,
}

/// A replay over data points with the given timestamps (seconds).
pub struct ReplaySession {
    pub id: u128,
    pub timestamps: Vec<i64>,
    /// Index of the next point to play
    pub current_position: usize,
    pub is_playing: bool,
    pub start_time: i64,
    pub end_time: i64,
    pub created_at: i64,
    pub last_update: i64,
}

/// Where a replay stands.
#[derive(Clone, Copy, Debug, PartialEq, Eq, Structural)]
pub struct ReplayProgress {
    pub session_id: u128,
    pub total_points: usize,
    pub current_point: usize,
    /// Time of the next point (the start time once all are played)
    pub current_timestamp: i64,
}

/// Timestamps in non-decreasing order.
pub open spec fn sorted_times(s: Seq<i64>) -> bool {
    forall|i: int, j: int| 0 <= i <= j < s.len() ==> s[i] <= s[j]
}

/// Number of timestamps before `t` (in a sorted list: the first position
/// whose time is at least `t`).
pub open spec fn count_before(s: Seq<i64>, t: i64) -> int
    decreases s.len(),
{
    if s.len() == 0 {
        0
    } else {
        count_before(s.drop_last(), t) + if s.last() < t { 1int } else { 0int }
    }
}

/// In a sorted list the elements before position `k` are below `t` and the
/// rest are not exactly when `k` counts the elements below `t`.
proof fn lemma_count_before_split(s: Seq<i64>, t: i64, k: int)
    requires
        sorted_times(s),
        0 <= k <= s.len(),
        forall|i: int| 0 <= i < k ==> #[trigger] s[i] < t,
        forall|i: int| k <= i < s.len() ==> #[trigger] s[i] >= t,
    ensures
        count_before(s, t) == k,
    decreases s.len(),
{
    if s.len() > 0 {
        let d = s.drop_last();
        if k == s.len() {
            assert forall|i: int| 0 <= i < k - 1 implies #[trigger] d[i] < t by {
                assert(d[i] == s[i]);
            }
            assert(sorted_times(d)) by {
                assert forall|i: int, j: int| 0 <= i <= j < d.len() implies d[i] <= d[j] by {
                    assert(d[i] == s[i] && d[j] == s[j]);
                }
            }
            lemma_count_before_split(d, t, k - 1);
            assert(s.last() == s[s.len() - 1]);
        } else {
            assert forall|i: int| 0 <= i < k implies #[trigger] d[i] < t by {
                assert(d[i] == s[i]);
            }
            assert forall|i: int| k <= i < d.len() implies #[trigger] d[i] >= t by {
                assert(d[i] == s[i]);
            }
            assert(sorted_times(d)) by {
                assert forall|i: int, j: int| 0 <= i <= j < d.len() implies d[i] <= d[j] by {
                    assert(d[i] == s[i] && d[j] == s[j]);
                }
            }
            lemma_count_before_split(d, t, k);
            assert(s.last() == s[s.len() - 1]);
        }
    }
}

impl ReplaySession {
    /// A paused session at the first point, spanning the first to the last
    /// timestamp; `NoData` when there are no points.
    pub fn new(id: u128, timestamps: Vec<i64>, now: i64) -> (r: Result<Self, ReplayError>)
        ensures
            timestamps@.len() == 0 ==> r matches Err(ReplayError::NoData),
            timestamps@.len() > 0 ==> (r matches Ok(s) && {
                &&& s.id == id
                &&& s.timestamps@ == timestamps@
                &&& s.current_position == 0
                &&& !s.is_playing
                &&& s.start_time == timestamps@[0]
                &&& s.end_time == timestamps@.last()
                &&& s.created_at == now
                &&& s.last_update == now
            }),
    {
        if timestamps.len() == 0 {
            return Err(ReplayError::NoData);
        }
        let start_time = timestamps[0];
        let end_time = timestamps[timestamps.len() - 1];
        Ok(ReplaySession {
            id,
            timestamps,
            current_position: 0,
            is_playing: false,
            start_time,
            end_time,
            created_at: now,
            last_update: now,
        })
    }

    /// Starts (or resumes) playing.
    pub fn start(&mut self, now: i64)
        ensures
            final(self).is_playing,
            final(self).last_update == now,
            final(self).current_position == old(self).current_position,
            final(self).timestamps@ == old(self).timestamps@,
            final(self).id == old(self).id,
            final(self).created_at == old(self).created_at,
            final(self).start_time == old(self).start_time,
            final(self).end_time == old(self).end_time,
    {
        self.is_playing = true;
        self.last_update = now;
    }

    /// Pauses playing.
    pub fn pause(&mut self, now: i64)
        ensures
            !final(self).is_playing,
            final(self).last_update == now,
            final(self).current_position == old(self).current_position,
            final(self).timestamps@ == old(self).timestamps@,
            final(self).id == old(self).id,
            final(self).created_at == old(self).created_at,
            final(self).start_time == old(self).start_time,
            final(self).end_time == old(self).end_time,
    {
        self.is_playing = false;
        self.last_update = now;
    }

    /// Moves to the first point at or after `timestamp` (past the end when
    /// there is none), by binary search over the timestamps; on timestamps
    /// out of order the position found is some position within the data.
    pub fn seek(&mut self, timestamp: i64, now: i64)
        ensures
            sorted_times(old(self).timestamps@) ==> final(self).current_position == count_before(
                old(self).timestamps@,
                timestamp,
            ),
            final(self).current_position <= old(self).timestamps@.len(),
            final(self).last_update == now,
            final(self).is_playing == old(self).is_playing,
            final(self).timestamps@ == old(self).timestamps@,
            final(self).id == old(self).id,
            final(self).created_at == old(self).created_at,
            final(self).start_time == old(self).start_time,
            final(self).end_time == old(self).end_time,
    {
        let mut lo: usize = 0;
        let mut hi: usize = self.timestamps.len();
        while lo < hi
            invariant
                lo <= hi <= self.timestamps@.len(),
                sorted_times(self.timestamps@) ==> forall|i: int| 0 <= i < lo ==> #[trigger] self.timestamps@[i] < timestamp,
                sorted_times(self.timestamps@) ==> forall|i: int| hi <= i < self.timestamps@.len() ==> #[trigger] self.timestamps@[i] >= timestamp,
            decreases hi - lo,
        {
            let mid = lo + (hi - lo) / 2;
            if self.timestamps[mid] < timestamp {
                proof {
                    if sorted_times(self.timestamps@) {
                        assert forall|i: int| 0 <= i <= mid implies #[trigger] self.timestamps@[i] < timestamp by {
                            assert(self.timestamps@[i] <= self.timestamps@[mid as int]);
                        }
                    }
                }
                lo = mid + 1;
            } else {
                proof {
                    if sorted_times(self.timestamps@) {
                        assert forall|i: int| mid <= i < self.timestamps@.len() implies #[trigger] self.timestamps@[i] >= timestamp by {
                            assert(self.timestamps@[mid as int] <= self.timestamps@[i]);
                        }
                    }
                }
                hi = mid;
            }
        }
        proof {
            if sorted_times(self.timestamps@) {
                lemma_count_before_split(self.timestamps@, timestamp, lo as int);
            }
        }
        self.current_position = lo;
        self.last_update = now;
    }

    /// Index of the next point to play, when playing and points remain;
    /// the position advances, and playing stops after the last point.
    pub fn next_point(&mut self, now: i64) -> (r: Option<usize>)
        ensures
            !old(self).is_playing || old(self).current_position >= old(self).timestamps@.len() ==> {
                &&& r is None
                &&& final(self).current_position == old(self).current_position
                &&& final(self).is_playing == old(self).is_playing
                &&& final(self).last_update == old(self).last_update
            },
            old(self).is_playing && old(self).current_position < old(self).timestamps@.len() ==> {
                &&& r == Some(old(self).current_position)
                &&& final(self).current_position == old(self).current_position + 1
                &&& final(self).is_playing == (old(self).current_position + 1 < old(self).timestamps@.len())
                &&& final(self).last_update == now
            },
            final(self).timestamps@ == old(self).timestamps@,
            final(self).id == old(self).id,
            final(self).created_at == old(self).created_at,
            final(self).start_time == old(self).start_time,
            final(self).end_time == old(self).end_time,
    {
        if !self.is_playing || self.current_position >= self.timestamps.len() {
            return None;
        }
        let idx = self.current_position;
        self.current_position = self.current_position + 1;
        self.last_update = now;
        if self.current_position >= self.timestamps.len() {
            self.is_playing = false;
        }
        Some(idx)
    }

    /// Points in total, points played, and the time of the next point.
    pub fn progress(&self) -> (p: ReplayProgress)
        ensures
            p.session_id == self.id,
            p.total_points == self.timestamps@.len(),
            p.current_point == self.current_position,
            p.current_timestamp == if self.current_position < self.timestamps@.len() {
                self.timestamps@[self.current_position as int]
            } else {
                self.start_time
            },
    {
        let current_timestamp = if self.current_position < self.timestamps.len() {
            self.timestamps[self.current_position]
        } else {
            self.start_time
        };
        ReplayProgress {
            session_id: self.id,
            total_points: self.timestamps.len(),
            current_point: self.current_position,
            current_timestamp,
        }
    }
}

/// Replay sessions, up to a limit.
pub struct ReplayRegistry {
    pub sessions: Vec<ReplaySession>,
    pub max_replay_sessions: usize,
}

/// Ids of sessions, in order.
pub open spec fn session_ids(s: Seq<ReplaySession>) -> Seq<u128> {
    s.map_values(|x: ReplaySession| x.id)
}

/// Ids of the sessions created at or after `cutoff`, in order.
pub open spec fn kept_ids(s: Seq<ReplaySession>, cutoff: int) -> Seq<u128>
    decreases s.len(),
{
    if s.len() == 0 {
        Seq::empty()
    } else if s.last().created_at >= cutoff {
        kept_ids(s.drop_last(), cutoff).push(s.last().id)
    } else {
        kept_ids(s.drop_last(), cutoff)
    }
}

impl ReplayRegistry {
    /// A registry with no sessions.
    pub fn new(max_replay_sessions: usize) -> (r: Self)
        ensures
            r.sessions@.len() == 0,
            r.max_replay_sessions == max_replay_sessions,
    {
        ReplayRegistry { sessions: Vec::new(), max_replay_sessions }
    }

    /// Opens a session over the given points: refused when the limit is
    /// reached, or when there are no points.
    pub fn create_replay_session(&mut self, id: u128, timestamps: Vec<i64>, now: i64) -> (r: Result<u128, ReplayError>)
        ensures
            final(self).max_replay_sessions == old(self).max_replay_sessions,
            old(self).sessions@.len() >= old(self).max_replay_sessions ==> r == Err::<u128, ReplayError>(ReplayError::TooManySessions)
                && final(self).sessions@ == old(self).sessions@,
            old(self).sessions@.len() < old(self).max_replay_sessions && timestamps@.len() == 0 ==> r == Err::<u128, ReplayError>(
                ReplayError::NoData,
            ) && final(self).sessions@ == old(self).sessions@,
            old(self).sessions@.len() < old(self).max_replay_sessions && timestamps@.len() > 0 ==> {
                &&& r == Ok::<u128, ReplayError>(id)
                &&& final(self).sessions@.len() == old(self).sessions@.len() + 1
                &&& final(self).sessions@.drop_last() == old(self).sessions@
                &&& final(self).sessions@.last().id == id
                &&& final(self).sessions@.last().timestamps@ == timestamps@
                &&& final(self).sessions@.last().current_position == 0
                &&& !final(self).sessions@.last().is_playing
                &&& final(self).sessions@.last().created_at == now
            },
    {
        if self.sessions.len() >= self.max_replay_sessions {
            return Err(ReplayError::TooManySessions);
        }
        match ReplaySession::new(id, timestamps, now) {
            Err(e) => Err(e),
            Ok(s) => {
                self.sessions.push(s);
                Ok(id)
            },
        }
    }

    /// Index of the first session with the id.
    pub fn find(&self, id: u128) -> (r: Option<usize>)
        ensures
            r matches Some(i) ==> i < self.sessions@.len() && self.sessions@[i as int].id == id && forall|k: int|
                0 <= k < i ==> #[trigger] self.sessions@[k].id != id,
            r is None ==> forall|k: int| 0 <= k < self.sessions@.len() ==> #[trigger] self.sessions@[k].id != id,
    {
        let mut i: usize = 0;
        while i < self.sessions.len()
            invariant
                i <= self.sessions@.len(),
                forall|k: int| 0 <= k < i ==> #[trigger] self.sessions@[k].id != id,
            decreases self.sessions@.len() - i,
        {
            if self.sessions[i].id == id {
                return Some(i);
            }
            i = i + 1;
        }
        None
    }

    /// Ends a session and removes it.
    pub fn stop_replay(&mut self, id: u128) -> (r: Result<(), ReplayError>)
        ensures
            final(self).max_replay_sessions == old(self).max_replay_sessions,
            (forall|k: int| 0 <= k < old(self).sessions@.len() ==> #[trigger] old(self).sessions@[k].id != id) ==> r
                == Err::<(), ReplayError>(ReplayError::SessionNotFound) && final(self).sessions@ == old(self).sessions@,
            (exists|k: int| 0 <= k < old(self).sessions@.len() && #[trigger] old(self).sessions@[k].id == id) ==> {
                &&& r is Ok
                &&& exists|k: int| 0 <= k < old(self).sessions@.len() && old(self).sessions@[k].id == id
                    && final(self).sessions@ == old(self).sessions@.remove(k)
            },
    {
        match self.find(id) {
            None => Err(ReplayError::SessionNotFound),
            Some(i) => {
                self.sessions.remove(i);
                Ok(())
            },
        }
    }

    /// Removes the sessions created more than a day before `now`; returns
    /// how many were removed.
    pub fn cleanup_expired_sessions(&mut self, now: i64) -> (removed: usize)
        ensures
            final(self).max_replay_sessions == old(self).max_replay_sessions,
            session_ids(final(self).sessions@) == kept_ids(old(self).sessions@, now - SESSION_LIFETIME_SECONDS),
            removed == old(self).sessions@.len() - final(self).sessions@.len(),
    {
        let cutoff: i128 = now as i128 - SESSION_LIFETIME_SECONDS as i128;
        let ghost s0 = self.sessions@;
        let mut kept: Vec<ReplaySession> = Vec::new();
        let mut rest: Vec<ReplaySession> = Vec::new();
        std::mem::swap(&mut rest, &mut self.sessions);
        let mut removed: usize = 0;
        let mut i: usize = 0;
        let n = rest.len();
        while rest.len() > 0
            invariant
                i + rest@.len() == n,
                n == s0.len(),
                rest@ == s0.skip(i as int),
                session_ids(kept@) == kept_ids(s0.take(i as int), cutoff as int),
                removed == i - kept@.len(),
                kept@.len() <= i,
                self.max_replay_sessions == old(self).max_replay_sessions,
                cutoff == now - SESSION_LIFETIME_SECONDS,
            decreases rest@.len(),
        {
            let s = rest.remove(0);
            proof {
                assert(s == s0[i as int]);
                assert(s0.take(i as int + 1).drop_last() == s0.take(i as int));
                assert(rest@ =~= s0.skip(i as int + 1));
            }
            if (s.created_at as i128) >= cutoff {
                kept.push(s);
                proof {
                    assert(session_ids(kept@) =~= session_ids(kept@.drop_last()).push(kept@.last().id));
                }
            } else {
                removed = removed + 1;
            }
            i = i + 1;
        }
        proof {
            assert(s0.take(n as int) == s0);
        }
        self.sessions = kept;
        removed
    }
}

} // verus!
