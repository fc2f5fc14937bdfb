//! The KV indexer: which worker currently holds which block hash, updated by
//! the workers' block residency events and queried for prefix overlap.
use vstd::prelude::*;
use std::collections::HashMap;
use std::collections::HashSet;
use crate::hasher::block_hashes;
use crate::hasher::lemma_hash_prefix;

verus! {

broadcast use vstd::std_specs::hash::group_hash_axioms;

/// A block residency event reported by a worker.
#[derive(Clone, Copy, Debug, PartialEq, Eq, Structural)]
pub enum RouterEvent {
    /// The worker now holds the block.
    Store { worker: i64, block_hash: u64, parent_hash: Option<u64> },
    /// The worker no longer holds the block.
    Evict { worker: i64, block_hash: u64 },
    /// The worker dropped its whole cache.
    Clear { worker: i64 },
}

impl RouterEvent {
    /// The worker that reported the event.
    pub fn worker(&self) -> (r: i64)
        ensures
            r == self.spec_worker(),
    {
        match self {
            RouterEvent::Store { worker, .. } => *worker,
            RouterEvent::Evict { worker, .. } => *worker,
            RouterEvent::Clear { worker } => *worker,
        }
    }

    pub open spec fn spec_worker(&self) -> i64 {
        match self {
            RouterEvent::Store { worker, .. } => *worker,
            RouterEvent::Evict { worker, .. } => *worker,
            RouterEvent::Clear { worker } => *worker,
        }
    }
}

/// The residency set with every block of `w` removed.
pub open spec fn without_worker(s: Set<(i64, u64)>, w: i64) -> Set<(i64, u64)> {
    s.filter(|p: (i64, u64)| p.0 != w)
}

/// The residency set after one event.
pub open spec fn apply_spec(s: Set<(i64, u64)>, e: RouterEvent) -> Set<(i64, u64)> {
    match e {
        RouterEvent::Store { worker, block_hash, .. } => s.insert((worker, block_hash)),
        RouterEvent::Evict { worker, block_hash } => s.remove((worker, block_hash)),
        RouterEvent::Clear { worker } => without_worker(s, worker),
    }
}

/// The residency set after a sequence of events, applied in order.
pub open spec fn apply_all(s: Set<(i64, u64)>, events: Seq<RouterEvent>) -> Set<(i64, u64)>
    decreases events.len(),
{
    if events.len() == 0 {
        s
    } else {
        apply_spec(apply_all(s, events.drop_last()), events.last())
    }
}

/// How many of `hashes[i..]` worker `w` holds without a gap, starting at `i`.
pub open spec fn overlap_from(s: Set<(i64, u64)>, w: i64, hashes: Seq<u64>, i: int) -> nat
    decreases hashes.len() - i,
{
    if i < 0 || i >= hashes.len() {
        0
    } else if s.contains((w, hashes[i])) {
        1 + overlap_from(s, w, hashes, i + 1)
    } else {
        0
    }
}

/// The overlap of worker `w` with a request: the length of the longest prefix
/// of `hashes` whose blocks `w` holds, every one of them.
pub open spec fn overlap(s: Set<(i64, u64)>, w: i64, hashes: Seq<u64>) -> nat {
    overlap_from(s, w, hashes, 0)
}

/// The overlap vector over the workers `workers`: each of them with a positive
/// overlap, mapped to it; the others are left out.
pub open spec fn overlap_map(s: Set<(i64, u64)>, hashes: Seq<u64>, workers: Seq<i64>) -> Map<
    i64,
    u32,
> {
    Map::new(
        |w: i64| workers.contains(w) && overlap(s, w, hashes) > 0,
        |w: i64| overlap(s, w, hashes) as u32,
    )
}

/// Index of block residency, kept per worker.
pub struct KvIndexer {
    by_worker: HashMap<i64, HashSet<u64>>,
}

impl View for KvIndexer {
    type V = Set<(i64, u64)>;

    /// The pairs (worker, block hash) such that the worker holds the block.
    closed spec fn view(&self) -> Set<(i64, u64)> {
        Set::new(
            |p: (i64, u64)| self.by_worker@.contains_key(p.0) && self.by_worker@[p.0]@.contains(p.1),
        )
    }
}

impl KvIndexer {
    /// An index in which no worker holds any block.
    pub fn new() -> (r: KvIndexer)
        ensures
            r@ == Set::<(i64, u64)>::empty(),
    {
        let r = KvIndexer { by_worker: HashMap::new() };
        assert(r@ =~= Set::<(i64, u64)>::empty());
        r
    }

    /// Whether worker `w` holds block `h`.
    pub fn holds(&self, w: i64, h: u64) -> (r: bool)
        ensures
            r == self@.contains((w, h)),
    {
        match self.by_worker.get(&w) {
            Some(set) => set.contains(&h),
            None => false,
        }
    }

    /// Applies one event. `Store` of a held block and `Evict` of a block that is
    /// not held change nothing; `Clear` drops every block of the worker.
    pub fn apply_event(&mut self, e: &RouterEvent)
        ensures
            final(self)@ == apply_spec(old(self)@, *e),
    {
        match e {
            RouterEvent::Store { worker, block_hash, .. } => {
                let w = *worker;
                let h = *block_hash;
                let mut set = match self.by_worker.remove(&w) {
                    Some(set) => set,
                    None => HashSet::new(),
                };
                set.insert(h);
                self.by_worker.insert(w, set);
                assert(self@ =~= old(self)@.insert((w, h)));
            },
            RouterEvent::Evict { worker, block_hash } => {
                let w = *worker;
                let h = *block_hash;
                match self.by_worker.remove(&w) {
                    Some(mut set) => {
                        assert(old(self).by_worker@[w] == set);
                        set.remove(&h);
                        assert(set@ == old(self).by_worker@[w]@.remove(h));
                        if !set.is_empty() {
                            self.by_worker.insert(w, set);
                        } else {
                            assert(set@ =~= Set::<u64>::empty());
                            assert forall|x: u64| old(self).by_worker@[w]@.contains(x) implies x == h by {
                                if x != h {
                                    assert(set@.contains(x));
                                }
                            }
                        }
                    },
                    None => {
                        assert(self.by_worker@ =~= old(self).by_worker@);
                    },
                }
                assert(self@ =~= old(self)@.remove((w, h)));
            },
            RouterEvent::Clear { worker } => {
                self.remove_worker(*worker);
            },
        }
    }

    /// Drops every block of worker `w` (its cache was cleared, or it is gone).
    pub fn remove_worker(&mut self, w: i64)
        ensures
            final(self)@ == without_worker(old(self)@, w),
    {
        self.by_worker.remove(&w);
        assert(self@ =~= without_worker(old(self)@, w));
    }

    /// The overlap of worker `w` with the block hashes of a request.
    pub fn worker_overlap(&self, w: i64, hashes: &Vec<u64>) -> (r: usize)
        ensures
            r == overlap(self@, w, hashes@),
    {
        let n = hashes.len();
        let mut k: usize = 0;
        match self.by_worker.get(&w) {
            Some(set) => {
                while k < n && set.contains(&hashes[k])
                    invariant
                        n == hashes@.len(),
                        k <= n,
                        self.by_worker@.contains_key(w) && self.by_worker@[w] == *set,
                        forall|j: int| 0 <= j < k ==> self@.contains((w, #[trigger] hashes@[j])),
                    decreases n - k,
                {
                    k = k + 1;
                }
            },
            None => {},
        }
        proof {
            lemma_overlap_stops(self@, w, hashes@, k as int);
        }
        k
    }

    /// The overlap vector of a request over the workers `workers`: every one of
    /// them that holds a non-empty prefix of `hashes`, with the length of that
    /// prefix.
    pub fn find_matches(&self, hashes: &Vec<u64>, workers: &Vec<i64>) -> (r: HashMap<i64, u32>)
        requires
            hashes.len() <= u32::MAX,
        ensures
            r@ == overlap_map(self@, hashes@, workers@),
    {
        let mut r: HashMap<i64, u32> = HashMap::new();
        let mut i: usize = 0;
        while i < workers.len()
            invariant
                i <= workers.len(),
                hashes.len() <= u32::MAX,
                r@ == overlap_map(self@, hashes@, workers@.subrange(0, i as int)),
            decreases workers.len() - i,
        {
            let w = workers[i];
            let k = self.worker_overlap(w, hashes);
            proof {
                lemma_overlap_bound(self@, w, hashes@);
            }
            if k > 0 {
                r.insert(w, k as u32);
            }
            proof {
                let before = workers@.subrange(0, i as int);
                let after = workers@.subrange(0, i + 1);
                assert(after =~= before.push(w));
                assert forall|x: i64| after.contains(x) <==> before.contains(x) || x == w by {
                    if after.contains(x) {
                        let j = choose|j: int| 0 <= j < after.len() && after[j] == x;
                        if j < before.len() {
                            assert(before[j] == x);
                        }
                    }
                    if before.contains(x) {
                        let j = choose|j: int| 0 <= j < before.len() && before[j] == x;
                        assert(after[j] == x);
                    }
                    if x == w {
                        assert(after[i as int] == x);
                    }
                }
                assert(r@ =~= overlap_map(self@, hashes@, after));
            }
            i = i + 1;
        }
        assert(workers@.subrange(0, workers@.len() as int) =~= workers@);
        r
    }
}

/// If the first `k` hashes are held and the next one is not (or there is none),
/// the overlap is `k`.
proof fn lemma_overlap_stops(s: Set<(i64, u64)>, w: i64, hashes: Seq<u64>, k: int)
    requires
        0 <= k <= hashes.len(),
        forall|j: int| 0 <= j < k ==> s.contains((w, #[trigger] hashes[j])),
        k == hashes.len() || !s.contains((w, hashes[k])),
    ensures
        overlap(s, w, hashes) == k,
{
    lemma_overlap_stops_from(s, w, hashes, k, 0);
}

proof fn lemma_overlap_stops_from(s: Set<(i64, u64)>, w: i64, hashes: Seq<u64>, k: int, i: int)
    requires
        0 <= i <= k <= hashes.len(),
        forall|j: int| 0 <= j < k ==> s.contains((w, #[trigger] hashes[j])),
        k == hashes.len() || !s.contains((w, hashes[k])),
    ensures
        overlap_from(s, w, hashes, i) == k - i,
    decreases k - i,
{
    if i < k {
        assert(s.contains((w, hashes[i])));
        lemma_overlap_stops_from(s, w, hashes, k, i + 1);
    }
}

proof fn lemma_overlap_from_bound(s: Set<(i64, u64)>, w: i64, hashes: Seq<u64>, i: int)
    requires
        0 <= i,
    ensures
        overlap_from(s, w, hashes, i) <= if i <= hashes.len() { hashes.len() - i } else { 0 },
    decreases hashes.len() - i,
{
    if i < hashes.len() {
        lemma_overlap_from_bound(s, w, hashes, i + 1);
    }
}

/// A worker's overlap is never more than the number of hashes in the request.
pub proof fn lemma_overlap_bound(s: Set<(i64, u64)>, w: i64, hashes: Seq<u64>)
    ensures
        overlap(s, w, hashes) <= hashes.len(),
{
    lemma_overlap_from_bound(s, w, hashes, 0);
}

/// Applying the same `Store` event twice leaves the same index as applying it
/// once.
pub proof fn lemma_store_idempotent(s: Set<(i64, u64)>, e: RouterEvent)
    requires
        e is Store,
    ensures
        apply_spec(apply_spec(s, e), e) == apply_spec(s, e),
{
    assert(apply_spec(apply_spec(s, e), e) =~= apply_spec(s, e));
}

/// A `Store` of a block that the worker did not hold, followed by the `Evict`
/// of that block, leaves the index as it was.
pub proof fn lemma_store_evict_inverse(
    s: Set<(i64, u64)>,
    worker: i64,
    block_hash: u64,
    parent_hash: Option<u64>,
)
    requires
        !s.contains((worker, block_hash)),
    ensures
        apply_spec(
            apply_spec(s, RouterEvent::Store { worker, block_hash, parent_hash }),
            RouterEvent::Evict { worker, block_hash },
        ) == s,
{
    assert(apply_spec(
        apply_spec(s, RouterEvent::Store { worker, block_hash, parent_hash }),
        RouterEvent::Evict { worker, block_hash },
    ) =~= s);
}

/// Once `Clear(w)` is applied, no overlap vector holds `w`.
pub proof fn lemma_clear_purges(s: Set<(i64, u64)>, w: i64, hashes: Seq<u64>, workers: Seq<i64>)
    ensures
        !overlap_map(apply_spec(s, RouterEvent::Clear { worker: w }), hashes, workers).contains_key(
            w,
        ),
{
    let t = apply_spec(s, RouterEvent::Clear { worker: w });
    if hashes.len() > 0 {
        assert(!t.contains((w, hashes[0])));
    }
}

proof fn lemma_overlap_from_prefix(
    s: Set<(i64, u64)>,
    w: i64,
    short: Seq<u64>,
    long: Seq<u64>,
    i: int,
)
    requires
        0 <= i,
        short.len() <= long.len(),
        forall|j: int| 0 <= j < short.len() ==> short[j] == long[j],
    ensures
        overlap_from(s, w, short, i) <= overlap_from(s, w, long, i),
    decreases short.len() - i,
{
    if i < short.len() {
        lemma_overlap_from_prefix(s, w, short, long, i + 1);
    }
}

/// A worker's overlap with a request never shrinks when the request's tokens
/// are extended.
pub proof fn lemma_overlap_monotone(
    s: Set<(i64, u64)>,
    w: i64,
    t: Seq<u32>,
    t2: Seq<u32>,
    b: nat,
    seed: u64,
)
    requires
        b > 0,
        t.len() <= t2.len(),
        t2.subrange(0, t.len() as int) == t,
    ensures
        overlap(s, w, block_hashes(t, b, seed)) <= overlap(s, w, block_hashes(t2, b, seed)),
{
    let k = t.len() / b;
    assert(k * b <= t.len()) by {
        vstd::arithmetic::div_mod::lemma_fundamental_div_mod(t.len() as int, b as int);
        vstd::arithmetic::div_mod::lemma_mod_pos_bound(t.len() as int, b as int);
    }
    assert(t.subrange(0, (k * b) as int) =~= t2.subrange(0, (k * b) as int));
    lemma_hash_prefix(t, t2, b, seed, k);
    vstd::arithmetic::div_mod::lemma_div_is_ordered(t.len() as int, t2.len() as int, b as int);
    lemma_overlap_from_prefix(s, w, block_hashes(t, b, seed), block_hashes(t2, b, seed), 0);
}

/// A worker's overlap with a request is at most the number of complete blocks
/// in the request.
pub proof fn lemma_overlap_at_most_blocks(s: Set<(i64, u64)>, w: i64, t: Seq<u32>, b: nat, seed: u64)
    requires
        b > 0,
    ensures
        overlap(s, w, block_hashes(t, b, seed)) <= t.len() / b,
{
    lemma_overlap_bound(s, w, block_hashes(t, b, seed));
}

} // verus!
