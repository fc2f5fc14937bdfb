//! The metrics aggregator: the latest load snapshot of each worker.
use vstd::prelude::*;
use std::collections::HashMap;

verus! {

broadcast use vstd::std_specs::hash::group_hash_axioms;

/// What a worker last reported of its load.
#[derive(Clone, Copy, Debug, PartialEq, Eq, Structural)]
pub struct LoadSnapshot {
    pub instance_id: i64,
    pub active_requests: u32,
    pub waiting_tokens: u32,
    pub free_kv_blocks: u32,
    /// When the snapshot was taken, in milliseconds.
    pub last_updated_ms: u64,
}

/// A snapshot is stale when it is more than `threshold_ms` older than `now_ms`.
pub open spec fn is_stale_spec(s: LoadSnapshot, now_ms: u64, threshold_ms: u64) -> bool {
    now_ms - s.last_updated_ms > threshold_ms
}

impl LoadSnapshot {
    /// Whether the snapshot is stale at `now_ms`.
    pub fn is_stale(&self, now_ms: u64, threshold_ms: u64) -> (r: bool)
        ensures
            r == is_stale_spec(*self, now_ms, threshold_ms),
    {
        now_ms > self.last_updated_ms && now_ms - self.last_updated_ms > threshold_ms
    }
}

/// The latest snapshot of each worker.
pub struct KvMetricsAggregator {
    loads: HashMap<i64, LoadSnapshot>,
}

impl View for KvMetricsAggregator {
    type V = Map<i64, LoadSnapshot>;

    closed spec fn view(&self) -> Map<i64, LoadSnapshot> {
        self.loads@
    }
}

/// The snapshots after `s` arrives: it replaces the worker's snapshot unless the
/// one kept is newer.
pub open spec fn update_spec(m: Map<i64, LoadSnapshot>, s: LoadSnapshot) -> Map<i64, LoadSnapshot> {
    if m.contains_key(s.instance_id) && m[s.instance_id].last_updated_ms > s.last_updated_ms {
        m
    } else {
        m.insert(s.instance_id, s)
    }
}

impl KvMetricsAggregator {
    /// An aggregator that knows no worker.
    pub fn new() -> (r: KvMetricsAggregator)
        ensures
            r@ == Map::<i64, LoadSnapshot>::empty(),
    {
        KvMetricsAggregator { loads: HashMap::new() }
    }

    /// Takes in a snapshot.
    pub fn update(&mut self, s: LoadSnapshot)
        ensures
            final(self)@ == update_spec(old(self)@, s),
    {
        let newer_kept = match self.loads.get(&s.instance_id) {
            Some(kept) => kept.last_updated_ms > s.last_updated_ms,
            None => false,
        };
        if !newer_kept {
            self.loads.insert(s.instance_id, s);
        }
    }

    /// Forgets worker `id` (it went down).
    pub fn remove(&mut self, id: i64)
        ensures
            final(self)@ == old(self)@.remove(id),
    {
        self.loads.remove(&id);
    }

    /// The latest snapshot of every worker.
    pub fn current(&self) -> (r: &HashMap<i64, LoadSnapshot>)
        ensures
            r@ == self@,
    {
        &self.loads
    }
}

} // verus!
