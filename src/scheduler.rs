//! The scheduler: from the overlap vector of a request and the workers' load,
//! picks one worker under the default selection policy.
use vstd::prelude::*;
use std::collections::HashMap;
use crate::metrics::LoadSnapshot;
use crate::text::str_eq;

verus! {

broadcast use vstd::std_specs::hash::group_hash_axioms;

/// Weights of the score, in thousandths (1000 stands for 1.0).
#[derive(Clone, Copy, Debug, PartialEq, Eq, Structural)]
pub struct Coefficients {
    /// Weight of the expected queue.
    pub alpha: u32,
    /// Weight of the cached tokens.
    pub beta: u32,
    /// Weight of the active requests.
    pub gamma: u32,
}

impl Default for Coefficients {
    /// alpha = 1.0, beta = 1.0, gamma = 0.5.
    fn default() -> (r: Coefficients)
        ensures
            r == (Coefficients { alpha: 1000, beta: 1000, gamma: 500 }),
    {
        Coefficients { alpha: 1000, beta: 1000, gamma: 500 }
    }
}

/// Configuration of the default selection policy.
#[derive(Clone, Copy, Debug, PartialEq, Eq, Structural)]
pub struct SchedulerConfig {
    pub coefficients: Coefficients,
    /// Age beyond which a load snapshot counts as unknown.
    pub staleness_threshold_ms: u64,
    /// Set while the index is degraded: the weight of cached tokens is halved.
    pub degraded: bool,
}

/// Why a scheduling request failed.
#[derive(Clone, Copy, Debug, PartialEq, Eq, Structural)]
pub enum KvSchedulerError {
    /// There is no live worker.
    NoWorkersAvailable,
    /// No worker passed the capacity filter, even relaxed.
    AllWorkersOverloaded,
}

/// Which rule separated the chosen worker from the best of the others.
#[derive(Clone, Copy, Debug, PartialEq, Eq, Structural)]
pub enum TieBreak {
    /// Its score was strictly lower than every other one (or it was alone).
    Score,
    /// Equal best score; it had more cached blocks.
    CacheBlocks,
    /// Equal score and cached blocks; it had fewer active requests.
    ActiveRequests,
    /// Equal on all of these; it had the lowest id.
    WorkerId,
    /// Chosen by a policy that does not rank workers.
    NotRanked,
}

/// The worker chosen for a request.
#[derive(Clone, Copy, Debug, PartialEq, Eq, Structural)]
pub struct WorkerSelectionResult {
    pub worker_id: i64,
    /// How many leading blocks of the request it is expected to hold.
    pub overlap_blocks: u32,
    pub tiebreak: TieBreak,
}

/// The live workers and what is known of their load.
pub struct ProcessedEndpoints {
    /// The live workers, each once.
    pub workers: Vec<i64>,
    /// The latest load snapshot of each worker.
    pub loads: HashMap<i64, LoadSnapshot>,
    /// The time at which the snapshots are judged, in milliseconds.
    pub now_ms: u64,
}

/// A request to schedule.
pub struct SchedulingRequest {
    /// Overlap of each worker with the request, in blocks; a worker that is
    /// missing has overlap 0.
    pub overlap: HashMap<i64, u32>,
    /// Number of tokens in the request.
    pub isl_tokens: u64,
}

// ----- the model -----

/// What the scheduler sees of the workers.
pub struct EndpointsView {
    pub workers: Seq<i64>,
    pub loads: Map<i64, LoadSnapshot>,
    pub now_ms: u64,
}

/// What the scheduler sees of a request.
pub struct RequestView {
    pub overlap: Map<i64, u32>,
    pub isl_tokens: u64,
}

impl View for ProcessedEndpoints {
    type V = EndpointsView;

    open spec fn view(&self) -> EndpointsView {
        EndpointsView { workers: self.workers@, loads: self.loads@, now_ms: self.now_ms }
    }
}

impl View for SchedulingRequest {
    type V = RequestView;

    open spec fn view(&self) -> RequestView {
        RequestView { overlap: self.overlap@, isl_tokens: self.isl_tokens }
    }
}

/// `w`'s load is known: there is a snapshot of it that is not stale.
pub open spec fn known(e: EndpointsView, thr: u64, w: i64) -> bool {
    e.loads.contains_key(w) && e.now_ms - e.loads[w].last_updated_ms <= thr
}

/// The waiting tokens (`waiting`) or active requests (otherwise) of the workers
/// of `ws` whose load is known, in the order of `ws`.
pub open spec fn known_values(e: EndpointsView, thr: u64, ws: Seq<i64>, waiting: bool) -> Seq<
    u32,
>
    decreases ws.len(),
{
    if ws.len() == 0 {
        Seq::empty()
    } else {
        let rest = known_values(e, thr, ws.drop_last(), waiting);
        let w = ws.last();
        if known(e, thr, w) {
            rest.push(
                if waiting {
                    e.loads[w].waiting_tokens
                } else {
                    e.loads[w].active_requests
                },
            )
        } else {
            rest
        }
    }
}

/// How many values of `s` are at most `v`.
pub open spec fn count_le(s: Seq<u32>, v: u32) -> nat
    decreases s.len(),
{
    if s.len() == 0 {
        0
    } else {
        count_le(s.drop_last(), v) + if s.last() <= v {
            1nat
        } else {
            0nat
        }
    }
}

/// `m` is the median of `s`: the least value of `s` with more than half of the
/// values of `s` at or below it.
pub open spec fn is_median(s: Seq<u32>, m: u32) -> bool {
    &&& s.contains(m)
    &&& count_le(s, m) > s.len() / 2
    &&& forall|x: u32| s.contains(x) && count_le(s, x) > s.len() / 2 ==> m <= x
}

/// The median of `s`, or 0 when `s` is empty.
pub open spec fn median_or_zero(s: Seq<u32>) -> u32 {
    if s.len() == 0 {
        0
    } else {
        choose|m: u32| is_median(s, m)
    }
}

/// `w`'s waiting tokens; for a worker whose load is unknown, the median over the
/// workers whose load is known.
pub open spec fn eff_waiting(e: EndpointsView, thr: u64, w: i64) -> int {
    if known(e, thr, w) {
        e.loads[w].waiting_tokens as int
    } else {
        median_or_zero(known_values(e, thr, e.workers, true)) as int
    }
}

/// `w`'s active requests; for a worker whose load is unknown, the median over
/// the workers whose load is known.
pub open spec fn eff_active(e: EndpointsView, thr: u64, w: i64) -> int {
    if known(e, thr, w) {
        e.loads[w].active_requests as int
    } else {
        median_or_zero(known_values(e, thr, e.workers, false)) as int
    }
}

/// The number of leading request blocks that `w` holds.
pub open spec fn cache_blocks(r: RequestView, w: i64) -> int {
    if r.overlap.contains_key(w) {
        r.overlap[w] as int
    } else {
        0
    }
}

/// The tokens of the request that still need prefill on `w`.
pub open spec fn prefill_tokens(r: RequestView, b: u32, w: i64) -> int {
    let p = r.isl_tokens - cache_blocks(r, w) * b;
    if p > 0 {
        p
    } else {
        0
    }
}

/// The weight of cached tokens in effect.
pub open spec fn beta_in_effect(c: SchedulerConfig) -> int {
    if c.degraded {
        (c.coefficients.beta / 2) as int
    } else {
        c.coefficients.beta as int
    }
}

/// The score of `w`, in thousandths: lower is better.
pub open spec fn score(
    c: SchedulerConfig,
    e: EndpointsView,
    r: RequestView,
    b: u32,
    w: i64,
) -> int {
    let thr = c.staleness_threshold_ms;
    c.coefficients.alpha * (eff_waiting(e, thr, w) + prefill_tokens(r, b, w)) - beta_in_effect(c) * (
    cache_blocks(r, w) * b) + c.coefficients.gamma * eff_active(e, thr, w)
}

/// `w` has room for the request: its free blocks hold the request's tokens
/// (it has at least `ceil(isl / b)` free blocks), or its load is unknown.
pub open spec fn capacity_ok(
    c: SchedulerConfig,
    e: EndpointsView,
    r: RequestView,
    b: u32,
    w: i64,
) -> bool {
    known(e, c.staleness_threshold_ms, w) ==> e.loads[w].free_kv_blocks * b >= r.isl_tokens
}

/// `w` may be chosen: it is live and has room, or no live worker has room.
pub open spec fn eligible(
    c: SchedulerConfig,
    e: EndpointsView,
    r: RequestView,
    b: u32,
    w: i64,
) -> bool {
    &&& e.workers.contains(w)
    &&& (capacity_ok(c, e, r, b, w) || forall|v: i64|
        #[trigger] e.workers.contains(v) ==> !capacity_ok(c, e, r, b, v))
}

/// The key under which workers are ranked, lowest first: score, then more
/// cached blocks, then fewer active requests, then lower id.
pub open spec fn rank_key(
    c: SchedulerConfig,
    e: EndpointsView,
    r: RequestView,
    b: u32,
    w: i64,
) -> (int, int, int, int) {
    (score(c, e, r, b, w), -cache_blocks(r, w), eff_active(e, c.staleness_threshold_ms, w), w as int)
}

/// Lexicographic order on rank keys.
pub open spec fn key_lt(k1: (int, int, int, int), k2: (int, int, int, int)) -> bool {
    ||| k1.0 < k2.0
    ||| k1.0 == k2.0 && k1.1 < k2.1
    ||| k1.0 == k2.0 && k1.1 == k2.1 && k1.2 < k2.2
    ||| k1.0 == k2.0 && k1.1 == k2.1 && k1.2 == k2.2 && k1.3 < k2.3
}

/// How far down the key two workers agree.
pub open spec fn tie_depth(k1: (int, int, int, int), k2: (int, int, int, int)) -> int {
    if k1.0 != k2.0 {
        0
    } else if k1.1 != k2.1 {
        1
    } else if k1.2 != k2.2 {
        2
    } else {
        3
    }
}

/// Some other eligible worker agrees with `w` at depth `d`.
pub open spec fn tied_at(
    c: SchedulerConfig,
    e: EndpointsView,
    r: RequestView,
    b: u32,
    w: i64,
    d: int,
) -> bool {
    exists|v: i64|
        v != w && eligible(c, e, r, b, v) && tie_depth(rank_key(c, e, r, b, w), rank_key(c, e, r, b, v))
            == d
}

/// The rule that separated `w` from the best of the other eligible workers.
pub open spec fn tiebreak_spec(
    c: SchedulerConfig,
    e: EndpointsView,
    r: RequestView,
    b: u32,
    w: i64,
) -> TieBreak {
    if tied_at(c, e, r, b, w, 3) {
        TieBreak::WorkerId
    } else if tied_at(c, e, r, b, w, 2) {
        TieBreak::ActiveRequests
    } else if tied_at(c, e, r, b, w, 1) {
        TieBreak::CacheBlocks
    } else {
        TieBreak::Score
    }
}

/// `w` is the choice of the default policy: it is eligible and ranks strictly
/// before every other eligible worker.
pub open spec fn is_choice(
    c: SchedulerConfig,
    e: EndpointsView,
    r: RequestView,
    b: u32,
    w: i64,
) -> bool {
    &&& eligible(c, e, r, b, w)
    &&& forall|v: i64|
        v != w && #[trigger] eligible(c, e, r, b, v) ==> key_lt(
            rank_key(c, e, r, b, w),
            rank_key(c, e, r, b, v),
        )
}

// ----- medians -----

proof fn lemma_count_le_all(s: Seq<u32>, v: u32)
    requires
        forall|j: int| 0 <= j < s.len() ==> s[j] <= v,
    ensures
        count_le(s, v) == s.len(),
    decreases s.len(),
{
    if s.len() > 0 {
        lemma_count_le_all(s.drop_last(), v);
    }
}

fn count_at_most(s: &Vec<u32>, v: u32) -> (r: usize)
    ensures
        r == count_le(s@, v),
{
    let mut c: usize = 0;
    let mut i: usize = 0;
    while i < s.len()
        invariant
            i <= s.len(),
            c <= i,
            c == count_le(s@.subrange(0, i as int), v),
        decreases s.len() - i,
    {
        proof {
            assert(s@.subrange(0, i + 1).drop_last() =~= s@.subrange(0, i as int));
        }
        if s[i] <= v {
            c = c + 1;
        }
        i = i + 1;
    }
    assert(s@.subrange(0, s.len() as int) =~= s@);
    c
}

/// The median of `s` (the value at position `len / 2` once sorted), or 0 when
/// `s` is empty.
pub fn median(s: &Vec<u32>) -> (r: u32)
    ensures
        r == median_or_zero(s@),
{
    let n = s.len();
    if n == 0 {
        return 0;
    }
    let mut top: u32 = s[0];
    let mut i: usize = 1;
    while i < n
        invariant
            n == s.len(),
            1 <= i <= n,
            s@.contains(top),
            forall|j: int| 0 <= j < i ==> s@[j] <= top,
        decreases n - i,
    {
        if s[i] > top {
            top = s[i];
        }
        i = i + 1;
    }
    proof {
        lemma_count_le_all(s@, top);
    }
    let mut best: u32 = top;
    let mut i: usize = 0;
    while i < n
        invariant
            n == s.len(),
            n > 0,
            i <= n,
            s@.contains(best),
            count_le(s@, best) > n / 2,
            forall|j: int| 0 <= j < i && count_le(s@, #[trigger] s@[j]) > n / 2 ==> best <= s@[j],
        decreases n - i,
    {
        let x = s[i];
        if x < best {
            let c = count_at_most(s, x);
            if c > n / 2 {
                best = x;
            }
        }
        i = i + 1;
    }
    proof {
        assert forall|x: u32| s@.contains(x) && count_le(s@, x) > s@.len() / 2 implies best <= x by {
            let j = choose|j: int| 0 <= j < s@.len() && s@[j] == x;
            assert(count_le(s@, s@[j]) > n / 2);
        }
        assert(is_median(s@, best));
        let m = choose|m: u32| is_median(s@, m);
        assert(m <= best && best <= m);
    }
    best
}

// ----- ranking -----

/// What the ranking needs of one worker.
struct Ranked {
    id: i64,
    score: i128,
    blocks: u32,
    active: u32,
    room: bool,
}

spec fn key_of(k: Ranked) -> (int, int, int, int) {
    (k.score as int, -(k.blocks as int), k.active as int, k.id as int)
}

/// `k` holds the ranking facts of worker `w`.
spec fn ranked_as(c: SchedulerConfig, e: EndpointsView, r: RequestView, b: u32, k: Ranked, w: i64) -> bool {
    &&& k.id == w
    &&& k.score == score(c, e, r, b, w)
    &&& k.blocks == cache_blocks(r, w)
    &&& k.active == eff_active(e, c.staleness_threshold_ms, w)
    &&& k.room == capacity_ok(c, e, r, b, w)
}

/// Whether `a` ranks before `b`.
fn ranks_before(a: &Ranked, b: &Ranked) -> (r: bool)
    ensures
        r == key_lt(key_of(*a), key_of(*b)),
{
    a.score < b.score || (a.score == b.score && a.blocks > b.blocks) || (a.score == b.score
        && a.blocks == b.blocks && a.active < b.active) || (a.score == b.score && a.blocks
        == b.blocks && a.active == b.active && a.id < b.id)
}

/// The product of two `u32`, which always fits a `u64`.
fn wide_mul(x: u32, y: u32) -> (r: u64)
    ensures
        r == x * y,
{
    proof {
        assert(0 <= x * y <= 0xffff_ffff * 0xffff_ffff) by (nonlinear_arith)
            requires
                0 <= x <= 0xffff_ffff,
                0 <= y <= 0xffff_ffff,
        ;
    }
    x as u64 * y as u64
}

/// The snapshot of `w` if its load is known.
fn known_load(e: &ProcessedEndpoints, thr: u64, w: i64) -> (r: Option<LoadSnapshot>)
    ensures
        r is Some <==> known(e@, thr, w),
        r is Some ==> r->0 == e.loads@[w],
{
    match e.loads.get(&w) {
        Some(s) => {
            if s.is_stale(e.now_ms, thr) {
                None
            } else {
                Some(*s)
            }
        },
        None => None,
    }
}

/// The waiting tokens and the active requests of the workers whose load is known.
fn known_loads(e: &ProcessedEndpoints, thr: u64) -> (r: (Vec<u32>, Vec<u32>))
    ensures
        r.0@ == known_values(e@, thr, e.workers@, true),
        r.1@ == known_values(e@, thr, e.workers@, false),
{
    let mut waiting: Vec<u32> = Vec::new();
    let mut active: Vec<u32> = Vec::new();
    let mut i: usize = 0;
    while i < e.workers.len()
        invariant
            i <= e.workers.len(),
            waiting@ == known_values(e@, thr, e.workers@.subrange(0, i as int), true),
            active@ == known_values(e@, thr, e.workers@.subrange(0, i as int), false),
        decreases e.workers.len() - i,
    {
        proof {
            assert(e.workers@.subrange(0, i + 1).drop_last() =~= e.workers@.subrange(0, i as int));
        }
        match known_load(e, thr, e.workers[i]) {
            Some(s) => {
                waiting.push(s.waiting_tokens);
                active.push(s.active_requests);
            },
            None => {},
        }
        i = i + 1;
    }
    assert(e.workers@.subrange(0, e.workers.len() as int) =~= e.workers@);
    (waiting, active)
}

/// The ranking facts of worker `w`, given the medians of the known loads.
fn rank(
    c: &SchedulerConfig,
    e: &ProcessedEndpoints,
    r: &SchedulingRequest,
    b: u32,
    w: i64,
    median_waiting: u32,
    median_active: u32,
) -> (k: Ranked)
    requires
        median_waiting == median_or_zero(known_values(e@, c.staleness_threshold_ms, e.workers@, true)),
        median_active == median_or_zero(
            known_values(e@, c.staleness_threshold_ms, e.workers@, false),
        ),
    ensures
        ranked_as(*c, e@, r@, b, k, w),
{
    let thr = c.staleness_threshold_ms;
    let (waiting, active, room) = match known_load(e, thr, w) {
        Some(s) => (s.waiting_tokens, s.active_requests, wide_mul(s.free_kv_blocks, b)
            >= r.isl_tokens),
        None => (median_waiting, median_active, true),
    };
    let blocks: u32 = match r.overlap.get(&w) {
        Some(v) => *v,
        None => 0,
    };
    let cached: u64 = wide_mul(blocks, b);
    let prefill: u64 = if r.isl_tokens > cached {
        r.isl_tokens - cached
    } else {
        0
    };
    let beta: u32 = if c.degraded {
        c.coefficients.beta / 2
    } else {
        c.coefficients.beta
    };
    let alpha = c.coefficients.alpha;
    let gamma = c.coefficients.gamma;
    let queue: i128 = waiting as i128 + prefill as i128;
    proof {
        let q = queue as int;
        let ch = cached as int;
        assert(0 <= alpha * q <= 0xffff_ffff * 0x2_0000_0000_0000_0000) by (nonlinear_arith)
            requires
                0 <= alpha <= 0xffff_ffff,
                0 <= q <= 0x2_0000_0000_0000_0000,
        ;
        assert(0 <= beta * ch <= 0xffff_ffff * 0xffff_ffff_ffff_ffff) by (nonlinear_arith)
            requires
                0 <= beta <= 0xffff_ffff,
                0 <= ch <= 0xffff_ffff_ffff_ffff,
        ;
        assert(0 <= gamma * active <= 0xffff_ffff * 0xffff_ffff) by (nonlinear_arith)
            requires
                0 <= gamma <= 0xffff_ffff,
                0 <= active <= 0xffff_ffff,
        ;
    }
    let score: i128 = alpha as i128 * queue - beta as i128 * cached as i128 + gamma as i128
        * active as i128;
    Ranked { id: w, score, blocks, active, room }
}

impl SchedulerConfig {
    /// The default selection policy. Among the live workers with room for the
    /// request (all of them if none has room), chooses the one that ranks first
    /// by score (lower is better), then more cached blocks, then fewer active
    /// requests, then lower id. Fails only when no worker is live.
    pub fn select(&self, e: &ProcessedEndpoints, r: &SchedulingRequest, b: u32) -> (res: Result<
        WorkerSelectionResult,
        KvSchedulerError,
    >)
        requires
            e.workers@.no_duplicates(),
        ensures
            match res {
                Ok(s) => {
                    &&& is_choice(*self, e@, r@, b, s.worker_id)
                    &&& s.overlap_blocks == cache_blocks(r@, s.worker_id)
                    &&& s.tiebreak == tiebreak_spec(*self, e@, r@, b, s.worker_id)
                },
                Err(err) => e.workers@.len() == 0 && err == KvSchedulerError::NoWorkersAvailable,
            },
    {
        let n = e.workers.len();
        if n == 0 {
            return Err(KvSchedulerError::NoWorkersAvailable);
        }
        let thr = self.staleness_threshold_ms;
        let (kw, ka) = known_loads(e, thr);
        let mw = median(&kw);
        let ma = median(&ka);
        let mut ranked: Vec<Ranked> = Vec::new();
        let mut any_room = false;
        let mut i: usize = 0;
        while i < n
            invariant
                n == e.workers@.len(),
                i <= n,
                mw == median_or_zero(known_values(e@, thr, e.workers@, true)),
                ma == median_or_zero(known_values(e@, thr, e.workers@, false)),
                thr == self.staleness_threshold_ms,
                ranked@.len() == i,
                forall|j: int|
                    0 <= j < i ==> ranked_as(*self, e@, r@, b, #[trigger] ranked@[j], e.workers@[j]),
                any_room <==> exists|j: int| 0 <= j < i && (#[trigger] ranked@[j]).room,
            decreases n - i,
        {
            let k = rank(self, e, r, b, e.workers[i], mw, ma);
            let ghost prev = ranked@;
            if k.room {
                any_room = true;
            }
            ranked.push(k);
            proof {
                assert(ranked@[i as int] == k);
                assert forall|j: int| 0 <= j < i implies #[trigger] ranked@[j] == prev[j] by {}
                if exists|j: int| 0 <= j < i && (#[trigger] prev[j]).room {
                    let j = choose|j: int| 0 <= j < i && (#[trigger] prev[j]).room;
                    assert(ranked@[j].room);
                }
            }
            i = i + 1;
        }
        proof {
            assert forall|v: i64| e.workers@.contains(v) implies eligible(*self, e@, r@, b, v) == (
            capacity_ok(*self, e@, r@, b, v) || !any_room) by {
                if any_room {
                    let j = choose|j: int| 0 <= j < n && (#[trigger] ranked@[j]).room;
                    assert(ranked_as(*self, e@, r@, b, ranked@[j], e.workers@[j]));
                    assert(e.workers@.contains(e.workers@[j]));
                } else {
                    assert forall|u: i64| #[trigger] e.workers@.contains(u) implies !capacity_ok(
                        *self,
                        e@,
                        r@,
                        b,
                        u,
                    ) by {
                        let j = choose|j: int| 0 <= j < n && e.workers@[j] == u;
                        assert(ranked_as(*self, e@, r@, b, ranked@[j], e.workers@[j]));
                        assert(!ranked@[j].room);
                    }
                }
            }
        }
        // the first-ranked eligible worker
        let mut best: usize = n;
        let mut i: usize = 0;
        while i < n
            invariant
                n == e.workers@.len(),
                n == ranked@.len(),
                n > 0,
                i <= n,
                best == n || best < i,
                best < n ==> (ranked@[best as int].room || !any_room),
                best == n ==> forall|j: int|
                    0 <= j < i ==> !(#[trigger] ranked@[j]).room && any_room,
                best < n ==> forall|j: int|
                    0 <= j < i && j != best && ((#[trigger] ranked@[j]).room || !any_room)
                        ==> key_lt(key_of(ranked@[best as int]), key_of(ranked@[j])),
                e.workers@.no_duplicates(),
                forall|j: int|
                    0 <= j < n ==> ranked_as(*self, e@, r@, b, #[trigger] ranked@[j], e.workers@[j]),
            decreases n - i,
        {
            if ranked[i].room || !any_room {
                if best == n || ranks_before(&ranked[i], &ranked[best]) {
                    best = i;
                }
            }
            i = i + 1;
        }
        assert(best == n ==> !ranked@[0].room);
        if best == n {
            // unreachable: some live worker has room, or every one is eligible
            proof {
                if any_room {
                    let j = choose|j: int| 0 <= j < n && (#[trigger] ranked@[j]).room;
                    assert(!ranked@[j].room);
                } else {
                    assert(!ranked@[0].room && any_room);
                }
            }
            return Err(KvSchedulerError::AllWorkersOverloaded);
        }
        let ghost w = e.workers@[best as int];
        let ghost kb = key_of(ranked@[best as int]);
        // how far down the key the best of the others agrees with the choice
        let mut depth: u8 = 0;
        let mut i: usize = 0;
        while i < n
            invariant
                n == ranked@.len(),
                best < n,
                kb == key_of(ranked@[best as int]),
                i <= n,
                depth <= 4,
                forall|j: int|
                    0 <= j < i && j != best && ((#[trigger] ranked@[j]).room || !any_room)
                        ==> tie_depth(kb, key_of(ranked@[j])) + 1 <= depth,
                depth > 0 ==> exists|j: int|
                    0 <= j < i && j != best && ((#[trigger] ranked@[j]).room || !any_room)
                        && tie_depth(kb, key_of(ranked@[j])) + 1 == depth,
            decreases n - i,
        {
            if i != best && (ranked[i].room || !any_room) {
                let a = &ranked[best];
                let o = &ranked[i];
                let d: u8 = if a.score != o.score {
                    1
                } else if a.blocks != o.blocks {
                    2
                } else if a.active != o.active {
                    3
                } else {
                    4
                };
                assert(tie_depth(kb, key_of(ranked@[i as int])) + 1 == d);
                if d > depth {
                    depth = d;
                }
            }
            i = i + 1;
        }
        proof {
            assert(ranked_as(*self, e@, r@, b, ranked@[best as int], w));
            assert(kb == rank_key(*self, e@, r@, b, w));
            assert(e.workers@.contains(w));
            assert forall|v: i64|
                v != w && #[trigger] eligible(*self, e@, r@, b, v) implies key_lt(
                rank_key(*self, e@, r@, b, w),
                rank_key(*self, e@, r@, b, v),
            ) by {
                let j = choose|j: int| 0 <= j < n && e.workers@[j] == v;
                assert(ranked_as(*self, e@, r@, b, ranked@[j], v));
            }
            assert forall|d: int| 0 <= d <= 3 && tied_at(*self, e@, r@, b, w, d) implies depth >= d + 1 by {
                let v = choose|v: i64|
                    v != w && eligible(*self, e@, r@, b, v) && tie_depth(
                        rank_key(*self, e@, r@, b, w),
                        rank_key(*self, e@, r@, b, v),
                    ) == d;
                let j = choose|j: int| 0 <= j < n && e.workers@[j] == v;
                assert(ranked_as(*self, e@, r@, b, ranked@[j], v));
                assert(j != best);
            }
            if depth > 0 {
                let j = choose|j: int|
                    0 <= j < n && j != best && ((#[trigger] ranked@[j]).room || !any_room)
                        && tie_depth(kb, key_of(ranked@[j])) + 1 == depth;
                assert(ranked_as(*self, e@, r@, b, ranked@[j], e.workers@[j]));
                assert(e.workers@.contains(e.workers@[j]));
                assert(e.workers@[j] != w);
                assert(tied_at(*self, e@, r@, b, w, depth - 1));
            }
        }
        let tiebreak = if depth == 4 {
            TieBreak::WorkerId
        } else if depth == 3 {
            TieBreak::ActiveRequests
        } else if depth == 2 {
            TieBreak::CacheBlocks
        } else {
            TieBreak::Score
        };
        Ok(
            WorkerSelectionResult {
                worker_id: ranked[best].id,
                overlap_blocks: ranked[best].blocks,
                tiebreak,
            },
        )
    }
}

/// The default policy's choice is unique: at most one worker ranks before all
/// the other eligible workers, so equal inputs always give the same worker.
pub proof fn lemma_choice_unique(
    c: SchedulerConfig,
    e: EndpointsView,
    r: RequestView,
    b: u32,
    w1: i64,
    w2: i64,
)
    requires
        is_choice(c, e, r, b, w1),
        is_choice(c, e, r, b, w2),
    ensures
        w1 == w2,
{
    if w1 != w2 {
        assert(key_lt(rank_key(c, e, r, b, w1), rank_key(c, e, r, b, w2)));
        assert(key_lt(rank_key(c, e, r, b, w2), rank_key(c, e, r, b, w1)));
    }
}

/// A worker selection policy.
pub trait WorkerSelector {
    /// Picks one of the live workers `workers.workers` for `request`.
    fn select_worker(
        &self,
        workers: &ProcessedEndpoints,
        request: &SchedulingRequest,
        block_size: u32,
    ) -> Result<WorkerSelectionResult, KvSchedulerError>
        requires
            workers.workers@.no_duplicates(),
    ;
}

impl WorkerSelector for SchedulerConfig {
    /// The default policy (see `SchedulerConfig::select`).
    fn select_worker(
        &self,
        workers: &ProcessedEndpoints,
        request: &SchedulingRequest,
        block_size: u32,
    ) -> (res: Result<WorkerSelectionResult, KvSchedulerError>)
        ensures
            match res {
                Ok(s) => {
                    &&& is_choice(*self, workers@, request@, block_size, s.worker_id)
                    &&& s.overlap_blocks == cache_blocks(request@, s.worker_id)
                    &&& s.tiebreak == tiebreak_spec(
                        *self,
                        workers@,
                        request@,
                        block_size,
                        s.worker_id,
                    )
                },
                Err(err) => workers.workers@.len() == 0 && err
                    == KvSchedulerError::NoWorkersAvailable,
            },
    {
        self.select(workers, request, block_size)
    }
}

/// The built-in selection policies, as a configuration string names them.
#[derive(Clone, Copy, Debug, PartialEq, Eq, Structural)]
pub enum SelectionPolicy {
    /// Rank by score and load (`SchedulerConfig::select`).
    Default,
    /// A live worker drawn at random.
    Random,
    /// The live workers in turn.
    RoundRobin,
}

/// A configuration string that names no selection policy.
#[derive(Clone, Copy, Debug, PartialEq, Eq, Structural)]
pub struct UnknownPolicy;

/// The policy that a configuration string names, if any.
pub open spec fn policy_of(s: Seq<char>) -> Option<SelectionPolicy> {
    if s == "default"@ {
        Some(SelectionPolicy::Default)
    } else if s == "random"@ {
        Some(SelectionPolicy::Random)
    } else if s == "round_robin"@ {
        Some(SelectionPolicy::RoundRobin)
    } else {
        None
    }
}

impl SelectionPolicy {
    /// Parses `default`, `random` or `round_robin`.
    pub fn parse(s: &str) -> (r: Result<SelectionPolicy, UnknownPolicy>)
        ensures
            match r {
                Ok(p) => policy_of(s@) == Some(p),
                Err(_) => policy_of(s@) is None,
            },
    {
        if str_eq(s, "default") {
            Ok(SelectionPolicy::Default)
        } else if str_eq(s, "random") {
            Ok(SelectionPolicy::Random)
        } else if str_eq(s, "round_robin") {
            Ok(SelectionPolicy::RoundRobin)
        } else {
            Err(UnknownPolicy)
        }
    }
}

/// The live worker at position `k % n` of the list, with its overlap.
fn pick_at(e: &ProcessedEndpoints, r: &SchedulingRequest, k: u64) -> (res: Result<
    WorkerSelectionResult,
    KvSchedulerError,
>)
    ensures
        match res {
            Ok(s) => {
                &&& e.workers@.len() > 0
                &&& s.worker_id == e.workers@[(k % (e.workers@.len() as u64)) as int]
                &&& s.overlap_blocks == cache_blocks(r@, s.worker_id)
                &&& s.tiebreak == TieBreak::NotRanked
            },
            Err(err) => e.workers@.len() == 0 && err == KvSchedulerError::NoWorkersAvailable,
        },
{
    let n = e.workers.len();
    if n == 0 {
        return Err(KvSchedulerError::NoWorkersAvailable);
    }
    let w = e.workers[(k % (n as u64)) as usize];
    let blocks: u32 = match r.overlap.get(&w) {
        Some(v) => *v,
        None => 0,
    };
    Ok(WorkerSelectionResult { worker_id: w, overlap_blocks: blocks, tiebreak: TieBreak::NotRanked })
}

/// The random policy: the live worker at position `draw % n`, for a random
/// `draw` that the caller provides.
pub fn select_random(e: &ProcessedEndpoints, r: &SchedulingRequest, draw: u64) -> (res: Result<
    WorkerSelectionResult,
    KvSchedulerError,
>)
    ensures
        match res {
            Ok(s) => {
                &&& e.workers@.len() > 0
                &&& s.worker_id == e.workers@[(draw % (e.workers@.len() as u64)) as int]
                &&& s.overlap_blocks == cache_blocks(r@, s.worker_id)
                &&& s.tiebreak == TieBreak::NotRanked
            },
            Err(err) => e.workers@.len() == 0 && err == KvSchedulerError::NoWorkersAvailable,
        },
{
    pick_at(e, r, draw)
}

/// The round-robin policy: the live workers in turn.
pub struct RoundRobinSelector {
    next: u64,
}

impl RoundRobinSelector {
    pub closed spec fn spec_next(&self) -> u64 {
        self.next
    }

    /// A selector that starts with the first live worker.
    pub fn new() -> (r: RoundRobinSelector)
        ensures
            r.spec_next() == 0,
    {
        RoundRobinSelector { next: 0 }
    }

    /// The live worker at position `next % n`; the turn then moves on.
    pub fn select(&mut self, e: &ProcessedEndpoints, r: &SchedulingRequest) -> (res: Result<
        WorkerSelectionResult,
        KvSchedulerError,
    >)
        ensures
            match res {
                Ok(s) => {
                    &&& e.workers@.len() > 0
                    &&& s.worker_id == e.workers@[(old(self).spec_next() % (
                    e.workers@.len() as u64)) as int]
                    &&& s.overlap_blocks == cache_blocks(r@, s.worker_id)
                    &&& s.tiebreak == TieBreak::NotRanked
                    &&& final(self).spec_next() == old(self).spec_next().wrapping_add(1)
                },
                Err(err) => {
                    &&& e.workers@.len() == 0
                    &&& err == KvSchedulerError::NoWorkersAvailable
                    &&& final(self).spec_next() == old(self).spec_next()
                },
            },
    {
        let res = pick_at(e, r, self.next);
        if res.is_ok() {
            self.next = self.next.wrapping_add(1);
        }
        res
    }
}

} // verus!
