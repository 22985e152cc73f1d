//! Keyed records kept as an append-only log: the latest record of a key is
//! its current value.
use vstd::prelude::*;

verus! {

/// Current value of a key: its latest record, if any.
pub open spec fn latest<V>(s: Seq<(u64, V)>, key: u64) -> Option<V>
    decreases s.len(),
{
    if s.len() == 0 {
        None
    } else if s.last().0 == key {
        Some(s.last().1)
    } else {
        latest(s.drop_last(), key)
    }
}

/// Current value of a key in a log.
pub fn find_latest<V: Copy>(log: &Vec<(u64, V)>, key: u64) -> (r: Option<V>)
    ensures
        r == latest(log@, key),
{
    let mut i: usize = log.len();
    proof {
        assert(log@.take(log@.len() as int) == log@);
    }
    while i > 0
        invariant
            i <= log.len(),
            latest(log@, key) == latest(log@.take(i as int), key),
        decreases i,
    {
        proof {
            assert(log@.take(i as int).drop_last() == log@.take(i as int - 1));
            assert(log@.take(i as int).last() == log@[i - 1]);
        }
        let e = log[i - 1];
        if e.0 == key {
            return Some(e.1);
        }
        i = i - 1;
    }
    None
}

/// Recording a value makes it the key's current value and keeps every
/// other key's.
pub proof fn lemma_latest_push<V>(s: Seq<(u64, V)>, key: u64, v: V)
    ensures
        latest(s.push((key, v)), key) == Some(v),
        forall|k: u64| k != key ==> #[trigger] latest(s.push((key, v)), k) == latest(s, k),
{
    assert(s.push((key, v)).drop_last() == s);
}

} // verus!
