//! The router: one entry point that turns a request's tokens into the choice of
//! a worker, over the index, the live set and the load that it keeps.
use vstd::prelude::*;
use std::collections::HashMap;
use crate::endpoints::WorkerEndpointSet;
use crate::endpoints::lemma_order_lists_live;
use crate::endpoints::without;
use crate::hasher::HASH_SEED;
use crate::hasher::block_hashes;
use crate::hasher::split_tokens;
use crate::indexer::KvIndexer;
use crate::indexer::RouterEvent;
use crate::indexer::apply_all;
use crate::indexer::apply_spec;
use crate::indexer::overlap_map;
use crate::indexer::without_worker;
use crate::indexer::lemma_overlap_monotone;
use crate::indexer::lemma_overlap_at_most_blocks;
use crate::metrics::KvMetricsAggregator;
use crate::metrics::LoadSnapshot;
use crate::metrics::update_spec;
use crate::scheduler::EndpointsView;
use crate::scheduler::KvSchedulerError;
use crate::scheduler::ProcessedEndpoints;
use crate::scheduler::RequestView;
use crate::scheduler::SchedulerConfig;
use crate::scheduler::SchedulingRequest;
use crate::scheduler::WorkerSelectionResult;
use crate::scheduler::RoundRobinSelector;
use crate::scheduler::SelectionPolicy;
use crate::scheduler::TieBreak;
use crate::scheduler::WorkerSelector;
use crate::scheduler::select_random;
use crate::scheduler::cache_blocks;
use crate::scheduler::is_choice;
use crate::scheduler::lemma_choice_unique;
use crate::scheduler::tiebreak_spec;

verus! {

/// Why routing failed.
#[derive(Clone, Copy, Debug, PartialEq, Eq, Structural)]
pub enum RouterError {
    /// The block size is 0.
    InvalidBlockSize,
    /// The request has more tokens than a `u32` counts.
    RequestTooLong,
    /// A selection policy chose a worker that is not live.
    NotLiveChoice,
    /// No worker is live.
    NoWorkersAvailable,
    /// No worker passed the capacity filter, even relaxed.
    AllWorkersOverloaded,
    /// The routing call was cancelled.
    Cancelled,
    /// The overlap query ran past its deadline.
    Timeout,
}

impl RouterError {
    /// The router error for a scheduling error.
    pub fn from_scheduler(e: KvSchedulerError) -> (r: RouterError)
        ensures
            e == KvSchedulerError::NoWorkersAvailable ==> r == RouterError::NoWorkersAvailable,
            e == KvSchedulerError::AllWorkersOverloaded ==> r == RouterError::AllWorkersOverloaded,
    {
        match e {
            KvSchedulerError::NoWorkersAvailable => RouterError::NoWorkersAvailable,
            KvSchedulerError::AllWorkersOverloaded => RouterError::AllWorkersOverloaded,
        }
    }
}

/// What is published about each routed request, to follow the cache hit rate.
#[derive(Clone, Copy, Debug, PartialEq, Eq, Structural)]
pub struct KvHitRateEvent {
    pub worker_id: i64,
    /// Tokens in the request.
    pub request_isl: u32,
    /// Leading blocks of the request that the chosen worker holds.
    pub cached_blocks: u32,
}

impl KvHitRateEvent {
    /// The record of a request of `isl` tokens routed as `s` says.
    pub fn of(s: &WorkerSelectionResult, isl: u32) -> (r: KvHitRateEvent)
        ensures
            r.worker_id == s.worker_id,
            r.request_isl == isl,
            r.cached_blocks == s.overlap_blocks,
    {
        KvHitRateEvent { worker_id: s.worker_id, request_isl: isl, cached_blocks: s.overlap_blocks }
    }
}

/// The KV-cache-aware router. It only decides which worker a request should go
/// to; it does not send it there.
pub struct KvRouter {
    indexer: KvIndexer,
    endpoints: WorkerEndpointSet,
    metrics: KvMetricsAggregator,
    config: SchedulerConfig,
    block_size: u32,
    policy: SelectionPolicy,
    round_robin: RoundRobinSelector,
}

impl KvRouter {
    /// The router's invariant: a positive block size and a well-formed live set.
    pub closed spec fn wf(&self) -> bool {
        self.block_size > 0 && self.endpoints.wf()
    }

    /// The residency index: the pairs (worker, block hash) of held blocks.
    pub closed spec fn index(&self) -> Set<(i64, u64)> {
        self.indexer@
    }

    /// The live workers.
    pub closed spec fn live(&self) -> Set<i64> {
        self.endpoints@
    }

    /// The live workers, each once, in the order in which they came up.
    pub closed spec fn live_order(&self) -> Seq<i64> {
        self.endpoints.order()
    }

    /// The latest load snapshot of each worker.
    pub closed spec fn loads(&self) -> Map<i64, LoadSnapshot> {
        self.metrics@
    }

    pub closed spec fn spec_config(&self) -> SchedulerConfig {
        self.config
    }

    pub closed spec fn spec_block_size(&self) -> u32 {
        self.block_size
    }

    /// The policy that `route_by_policy` applies.
    pub closed spec fn spec_policy(&self) -> SelectionPolicy {
        self.policy
    }

    /// The turn of the round-robin policy.
    pub closed spec fn spec_turn(&self) -> u64 {
        self.round_robin.spec_next()
    }

    /// What the scheduler is asked for a request of `tokens`.
    pub open spec fn request_view(&self, tokens: Seq<u32>) -> RequestView {
        RequestView {
            overlap: overlap_map(
                self.index(),
                block_hashes(tokens, self.spec_block_size() as nat, HASH_SEED),
                self.live_order(),
            ),
            isl_tokens: tokens.len() as u64,
        }
    }

    /// What the scheduler sees of the workers at `now_ms`.
    pub open spec fn endpoints_view(&self, now_ms: u64) -> EndpointsView {
        EndpointsView { workers: self.live_order(), loads: self.loads(), now_ms }
    }

    /// A router with no live worker, no block held and no load known. Fails
    /// when `block_size` is 0.
    pub fn new(block_size: u32, config: SchedulerConfig) -> (r: Result<KvRouter, RouterError>)
        ensures
            block_size == 0 <==> r is Err,
            r is Err ==> r->Err_0 == RouterError::InvalidBlockSize,
            r is Ok ==> {
                let k = r->Ok_0;
                &&& k.wf()
                &&& k.index() == Set::<(i64, u64)>::empty()
                &&& k.live() == Set::<i64>::empty()
                &&& k.live_order() == Seq::<i64>::empty()
                &&& k.loads() == Map::<i64, LoadSnapshot>::empty()
                &&& k.spec_config() == config
                &&& k.spec_block_size() == block_size
                &&& k.spec_policy() == SelectionPolicy::Default
                &&& k.spec_turn() == 0
            },
    {
        if block_size == 0 {
            return Err(RouterError::InvalidBlockSize);
        }
        Ok(
            KvRouter {
                indexer: KvIndexer::new(),
                endpoints: WorkerEndpointSet::new(),
                metrics: KvMetricsAggregator::new(),
                config,
                block_size,
                policy: SelectionPolicy::Default,
                round_robin: RoundRobinSelector::new(),
            },
        )
    }

    /// The block size this router was configured with.
    pub fn block_size(&self) -> (r: u32)
        ensures
            r == self.spec_block_size(),
    {
        self.block_size
    }

    /// Records that worker `id` came up.
    pub fn worker_up(&mut self, id: i64)
        requires
            old(self).wf(),
        ensures
            final(self).wf(),
            final(self).live() == old(self).live().insert(id),
            final(self).live_order() == if old(self).live_order().contains(id) {
                old(self).live_order()
            } else {
                old(self).live_order().push(id)
            },
            final(self).index() == old(self).index(),
            final(self).loads() == old(self).loads(),
            final(self).spec_config() == old(self).spec_config(),
            final(self).spec_block_size() == old(self).spec_block_size(),
    {
        self.endpoints.up(id);
    }

    /// Records that worker `id` went down, and drops all that is known of it:
    /// its blocks and its load.
    pub fn worker_down(&mut self, id: i64)
        requires
            old(self).wf(),
        ensures
            final(self).wf(),
            final(self).live() == old(self).live().remove(id),
            final(self).live_order() == without(old(self).live_order(), id),
            final(self).index() == without_worker(old(self).index(), id),
            final(self).loads() == old(self).loads().remove(id),
            final(self).spec_config() == old(self).spec_config(),
            final(self).spec_block_size() == old(self).spec_block_size(),
    {
        self.endpoints.down(id);
        self.indexer.remove_worker(id);
        self.metrics.remove(id);
    }

    /// Applies one block residency event to the index.
    pub fn apply_event(&mut self, e: &RouterEvent)
        requires
            old(self).wf(),
        ensures
            final(self).wf(),
            final(self).index() == apply_spec(old(self).index(), *e),
            final(self).live() == old(self).live(),
            final(self).live_order() == old(self).live_order(),
            final(self).loads() == old(self).loads(),
            final(self).spec_config() == old(self).spec_config(),
            final(self).spec_block_size() == old(self).spec_block_size(),
    {
        self.indexer.apply_event(e);
    }

    /// Applies a sequence of events to the index, in order.
    pub fn apply_events(&mut self, events: &Vec<RouterEvent>)
        requires
            old(self).wf(),
        ensures
            final(self).wf(),
            final(self).index() == apply_all(old(self).index(), events@),
            final(self).live() == old(self).live(),
            final(self).live_order() == old(self).live_order(),
            final(self).loads() == old(self).loads(),
            final(self).spec_config() == old(self).spec_config(),
            final(self).spec_block_size() == old(self).spec_block_size(),
    {
        let mut i: usize = 0;
        while i < events.len()
            invariant
                i <= events.len(),
                self.wf(),
                self.index() == apply_all(old(self).index(), events@.subrange(0, i as int)),
                self.live() == old(self).live(),
                self.live_order() == old(self).live_order(),
                self.loads() == old(self).loads(),
                self.spec_config() == old(self).spec_config(),
                self.spec_block_size() == old(self).spec_block_size(),
            decreases events.len() - i,
        {
            proof {
                assert(events@.subrange(0, i + 1).drop_last() =~= events@.subrange(0, i as int));
            }
            self.apply_event(&events[i]);
            i = i + 1;
        }
        assert(events@.subrange(0, events.len() as int) =~= events@);
    }

    /// Takes in a worker's load snapshot.
    pub fn update_load(&mut self, s: LoadSnapshot)
        requires
            old(self).wf(),
        ensures
            final(self).wf(),
            final(self).loads() == update_spec(old(self).loads(), s),
            final(self).index() == old(self).index(),
            final(self).live() == old(self).live(),
            final(self).live_order() == old(self).live_order(),
            final(self).spec_config() == old(self).spec_config(),
            final(self).spec_block_size() == old(self).spec_block_size(),
    {
        self.metrics.update(s);
    }

    /// Whether worker `id` is live.
    pub fn is_live(&self, id: i64) -> (r: bool)
        ensures
            r == self.live().contains(id),
    {
        self.endpoints.is_live(id)
    }

    /// Chooses the worker for a request of `tokens` at time `now_ms`: hashes the
    /// complete blocks, takes each live worker's overlap from the index, and
    /// applies the default selection policy. `lora_id` is reserved and not used
    /// yet.
    pub fn route(&self, tokens: &Vec<u32>, lora_id: Option<u64>, now_ms: u64) -> (res: Result<
        WorkerSelectionResult,
        RouterError,
    >)
        requires
            self.wf(),
        ensures
            tokens.len() > u32::MAX ==> res == Err::<WorkerSelectionResult, RouterError>(
                RouterError::RequestTooLong,
            ),
            tokens.len() <= u32::MAX ==> match res {
                Ok(s) => {
                    let (e, r) = (self.endpoints_view(now_ms), self.request_view(tokens@));
                    &&& self.live().contains(s.worker_id)
                    &&& is_choice(self.spec_config(), e, r, self.spec_block_size(), s.worker_id)
                    &&& s.overlap_blocks == cache_blocks(r, s.worker_id)
                    &&& s.tiebreak == tiebreak_spec(
                        self.spec_config(),
                        e,
                        r,
                        self.spec_block_size(),
                        s.worker_id,
                    )
                },
                Err(err) => self.live().is_empty() && err == RouterError::NoWorkersAvailable,
            },
    {
        if tokens.len() > 0xffff_ffff {
            return Err(RouterError::RequestTooLong);
        }
        let (e, r) = self.prepare(tokens, now_ms);
        match self.config.select(&e, &r, self.block_size) {
            Ok(s) => {
                proof {
                    lemma_order_lists_live(&self.endpoints, s.worker_id);
                }
                Ok(s)
            },
            Err(err) => {
                proof {
                    assert(self.live() =~= Set::<i64>::empty()) by {
                        assert forall|x: i64| !self.live().contains(x) by {
                            lemma_order_lists_live(&self.endpoints, x);
                        }
                    }
                }
                Err(RouterError::from_scheduler(err))
            },
        }
    }

    /// What the scheduler is given for a request of `tokens` at `now_ms`.
    fn prepare(&self, tokens: &Vec<u32>, now_ms: u64) -> (r: (ProcessedEndpoints, SchedulingRequest))
        requires
            self.wf(),
            tokens.len() <= u32::MAX,
        ensures
            r.0@ == self.endpoints_view(now_ms),
            r.1@ == self.request_view(tokens@),
            r.0.workers@.no_duplicates(),
    {
        let (hashes, _tail) = split_tokens(tokens, self.block_size as usize, HASH_SEED);
        proof {
            vstd::arithmetic::div_mod::lemma_div_is_ordered_by_denominator(
                tokens.len() as int,
                1,
                self.block_size as int,
            );
        }
        let workers = self.endpoints.live_workers();
        let overlap = self.indexer.find_matches(&hashes, &workers);
        let e = ProcessedEndpoints { workers, loads: self.metrics.current().clone(), now_ms };
        let r = SchedulingRequest { overlap, isl_tokens: tokens.len() as u64 };
        (e, r)
    }

    /// Chooses a worker with a selection policy of the caller's, given the
    /// live workers (each once, in `live_order`), their load and the request's
    /// overlap vector. The selector's answer is passed on when it names a live
    /// worker; a choice of a worker that is not live is refused.
    pub fn route_with_selector<S: WorkerSelector>(
        &self,
        selector: &S,
        tokens: &Vec<u32>,
        now_ms: u64,
    ) -> (res: Result<WorkerSelectionResult, RouterError>)
        requires
            self.wf(),
        ensures
            tokens.len() > u32::MAX ==> res == Err::<WorkerSelectionResult, RouterError>(
                RouterError::RequestTooLong,
            ),
            tokens.len() <= u32::MAX ==> match res {
                Ok(s) => self.live().contains(s.worker_id),
                Err(err) => err == RouterError::NoWorkersAvailable || err
                    == RouterError::AllWorkersOverloaded || err == RouterError::NotLiveChoice,
            },
    {
        if tokens.len() > 0xffff_ffff {
            return Err(RouterError::RequestTooLong);
        }
        let (e, r) = self.prepare(tokens, now_ms);
        match selector.select_worker(&e, &r, self.block_size) {
            Ok(s) => {
                if self.endpoints.is_live(s.worker_id) {
                    Ok(s)
                } else {
                    Err(RouterError::NotLiveChoice)
                }
            },
            Err(err) => Err(RouterError::from_scheduler(err)),
        }
    }

    /// Sets the policy that `route_by_policy` applies.
    pub fn set_policy(&mut self, policy: SelectionPolicy)
        requires
            old(self).wf(),
        ensures
            final(self).wf(),
            final(self).spec_policy() == policy,
            final(self).spec_turn() == old(self).spec_turn(),
            final(self).index() == old(self).index(),
            final(self).live() == old(self).live(),
            final(self).live_order() == old(self).live_order(),
            final(self).loads() == old(self).loads(),
            final(self).spec_config() == old(self).spec_config(),
            final(self).spec_block_size() == old(self).spec_block_size(),
    {
        self.policy = policy;
    }

    /// Chooses a worker under the configured policy: the default one (as
    /// `route`), the live worker at position `draw % n` of `live_order` for
    /// the random one (`draw` is a random number of the caller's), or the live
    /// workers in turn for round robin.
    pub fn route_by_policy(&mut self, tokens: &Vec<u32>, lora_id: Option<u64>, now_ms: u64, draw: u64) -> (res:
        Result<WorkerSelectionResult, RouterError>)
        requires
            old(self).wf(),
        ensures
            final(self).wf(),
            final(self).spec_policy() == old(self).spec_policy(),
            final(self).index() == old(self).index(),
            final(self).live() == old(self).live(),
            final(self).live_order() == old(self).live_order(),
            final(self).loads() == old(self).loads(),
            final(self).spec_config() == old(self).spec_config(),
            final(self).spec_block_size() == old(self).spec_block_size(),
            tokens.len() > u32::MAX ==> res == Err::<WorkerSelectionResult, RouterError>(
                RouterError::RequestTooLong,
            ) && final(self).spec_turn() == old(self).spec_turn(),
            tokens.len() <= u32::MAX ==> match res {
                Ok(s) => {
                    let (e, r) = (old(self).endpoints_view(now_ms), old(self).request_view(tokens@));
                    let n = old(self).live_order().len();
                    &&& old(self).live().contains(s.worker_id)
                    &&& s.overlap_blocks == cache_blocks(r, s.worker_id)
                    &&& match old(self).spec_policy() {
                        SelectionPolicy::Default => {
                            &&& is_choice(
                                old(self).spec_config(),
                                e,
                                r,
                                old(self).spec_block_size(),
                                s.worker_id,
                            )
                            &&& s.tiebreak == tiebreak_spec(
                                old(self).spec_config(),
                                e,
                                r,
                                old(self).spec_block_size(),
                                s.worker_id,
                            )
                            &&& final(self).spec_turn() == old(self).spec_turn()
                        },
                        SelectionPolicy::Random => {
                            &&& s.worker_id == old(self).live_order()[draw as int % n as int]
                            &&& s.tiebreak == TieBreak::NotRanked
                            &&& final(self).spec_turn() == old(self).spec_turn()
                        },
                        SelectionPolicy::RoundRobin => {
                            &&& s.worker_id == old(self).live_order()[old(self).spec_turn() as int
                                % n as int]
                            &&& s.tiebreak == TieBreak::NotRanked
                            &&& final(self).spec_turn() == old(self).spec_turn().wrapping_add(1)
                        },
                    }
                },
                Err(err) => {
                    &&& old(self).live().is_empty()
                    &&& err == RouterError::NoWorkersAvailable
                    &&& final(self).spec_turn() == old(self).spec_turn()
                },
            },
    {
        if tokens.len() > 0xffff_ffff {
            return Err(RouterError::RequestTooLong);
        }
        match self.policy {
            SelectionPolicy::Default => {
                let res = self.route(tokens, lora_id, now_ms);
                proof {
                    match res {
                        Ok(s) => {
                            assert(old(self).live().contains(s.worker_id));
                            assert(s.overlap_blocks == cache_blocks(old(self).request_view(tokens@), s.worker_id));
                            assert(old(self).spec_policy() == SelectionPolicy::Default);
                            assert(is_choice(
                                old(self).spec_config(),
                                old(self).endpoints_view(now_ms),
                                old(self).request_view(tokens@),
                                old(self).spec_block_size(),
                                s.worker_id,
                            ));
                            assert(s.tiebreak == tiebreak_spec(
                                old(self).spec_config(),
                                old(self).endpoints_view(now_ms),
                                old(self).request_view(tokens@),
                                old(self).spec_block_size(),
                                s.worker_id,
                            ));
                            assert(final(self).spec_turn() == old(self).spec_turn());
                        },
                        Err(_) => {},
                    }
                }
                res
            },
            _ => {
                let (e, r) = self.prepare(tokens, now_ms);
                let picked = match self.policy {
                    SelectionPolicy::Random => select_random(&e, &r, draw),
                    _ => self.round_robin.select(&e, &r),
                };
                match picked {
                    Ok(s) => {
                        proof {
                            lemma_order_lists_live(&self.endpoints, s.worker_id);
                        }
                        Ok(s)
                    },
                    Err(err) => {
                        proof {
                            assert(self.live() =~= Set::<i64>::empty()) by {
                                assert forall|x: i64| !self.live().contains(x) by {
                                    lemma_order_lists_live(&self.endpoints, x);
                                }
                            }
                        }
                        Err(RouterError::from_scheduler(err))
                    },
                }
            },
        }
    }

    /// Chooses a worker on load alone, as when the overlap query ran past its
    /// deadline: every worker is taken to hold no block of the request.
    pub fn route_on_load(&self, tokens: &Vec<u32>, now_ms: u64) -> (res: Result<
        WorkerSelectionResult,
        RouterError,
    >)
        requires
            self.wf(),
        ensures
            match res {
                Ok(s) => {
                    let (e, r) = (
                        self.endpoints_view(now_ms),
                        RequestView { overlap: Map::empty(), isl_tokens: tokens.len() as u64 },
                    );
                    &&& self.live().contains(s.worker_id)
                    &&& is_choice(self.spec_config(), e, r, self.spec_block_size(), s.worker_id)
                    &&& s.overlap_blocks == 0
                    &&& s.tiebreak == tiebreak_spec(
                        self.spec_config(),
                        e,
                        r,
                        self.spec_block_size(),
                        s.worker_id,
                    )
                },
                Err(err) => self.live().is_empty() && err == RouterError::NoWorkersAvailable,
            },
    {
        let workers = self.endpoints.live_workers();
        let e = ProcessedEndpoints { workers, loads: self.metrics.current().clone(), now_ms };
        let r = SchedulingRequest { overlap: HashMap::new(), isl_tokens: tokens.len() as u64 };
        match self.config.select(&e, &r, self.block_size) {
            Ok(s) => {
                proof {
                    lemma_order_lists_live(&self.endpoints, s.worker_id);
                }
                Ok(s)
            },
            Err(err) => {
                proof {
                    assert(self.live() =~= Set::<i64>::empty()) by {
                        assert forall|x: i64| !self.live().contains(x) by {
                            lemma_order_lists_live(&self.endpoints, x);
                        }
                    }
                }
                Err(RouterError::from_scheduler(err))
            },
        }
    }

    /// Marks the index degraded, or recovered. While it is degraded the weight
    /// of cached tokens is halved.
    pub fn set_degraded(&mut self, degraded: bool)
        requires
            old(self).wf(),
        ensures
            final(self).wf(),
            final(self).spec_config() == (SchedulerConfig { degraded, ..old(self).spec_config() }),
            final(self).index() == old(self).index(),
            final(self).live() == old(self).live(),
            final(self).live_order() == old(self).live_order(),
            final(self).loads() == old(self).loads(),
            final(self).spec_block_size() == old(self).spec_block_size(),
    {
        self.config.degraded = degraded;
    }

    /// Records how long the event stream has been interrupted: the index is
    /// degraded while the gap exceeds the staleness threshold.
    pub fn stream_gap(&mut self, gap_ms: u64)
        requires
            old(self).wf(),
        ensures
            final(self).wf(),
            final(self).spec_config() == (SchedulerConfig {
                degraded: gap_ms > old(self).spec_config().staleness_threshold_ms,
                ..old(self).spec_config()
            }),
            final(self).index() == old(self).index(),
            final(self).live() == old(self).live(),
            final(self).live_order() == old(self).live_order(),
            final(self).loads() == old(self).loads(),
            final(self).spec_block_size() == old(self).spec_block_size(),
    {
        let degraded = gap_ms > self.config.staleness_threshold_ms;
        self.set_degraded(degraded);
    }

    /// The id of the worker chosen for `token_ids` at time `now_ms` (see
    /// `route`). `lora_id` is reserved and not used yet.
    pub fn schedule(&self, token_ids: &Vec<u32>, lora_id: u64, now_ms: u64) -> (res: Result<
        i64,
        RouterError,
    >)
        requires
            self.wf(),
        ensures
            token_ids.len() > u32::MAX ==> res == Err::<i64, RouterError>(
                RouterError::RequestTooLong,
            ),
            token_ids.len() <= u32::MAX ==> match res {
                Ok(w) => self.live().contains(w) && is_choice(
                    self.spec_config(),
                    self.endpoints_view(now_ms),
                    self.request_view(token_ids@),
                    self.spec_block_size(),
                    w,
                ),
                Err(err) => self.live().is_empty() && err == RouterError::NoWorkersAvailable,
            },
    {
        match self.route(token_ids, Some(lora_id), now_ms) {
            Ok(s) => Ok(s.worker_id),
            Err(e) => Err(e),
        }
    }
}

/// The live workers are those listed in `live_order`, each listed once.
pub proof fn lemma_live_listed(k: &KvRouter, id: i64)
    ensures
        k.live_order().contains(id) == k.live().contains(id),
        k.wf() ==> k.live_order().no_duplicates(),
{
    lemma_order_lists_live(&k.endpoints, id);
}

/// A well-formed router has a positive block size.
pub proof fn lemma_wf_block_size(k: &KvRouter)
    ensures
        k.wf() ==> k.spec_block_size() > 0,
{
}

/// Two routers that agree on the index, the live workers and their order, the
/// loads, the configuration and the block size choose alike: the state each
/// mutator leaves is fixed by its contract, so equal histories give equal
/// choices.
pub proof fn lemma_equal_states_route_alike(
    k1: &KvRouter,
    k2: &KvRouter,
    tokens: Seq<u32>,
    now_ms: u64,
    w1: i64,
    w2: i64,
)
    requires
        k1.index() == k2.index(),
        k1.live_order() == k2.live_order(),
        k1.loads() == k2.loads(),
        k1.spec_config() == k2.spec_config(),
        k1.spec_block_size() == k2.spec_block_size(),
        is_choice(
            k1.spec_config(),
            k1.endpoints_view(now_ms),
            k1.request_view(tokens),
            k1.spec_block_size(),
            w1,
        ),
        is_choice(
            k2.spec_config(),
            k2.endpoints_view(now_ms),
            k2.request_view(tokens),
            k2.spec_block_size(),
            w2,
        ),
    ensures
        w1 == w2,
{
    lemma_choice_unique(
        k1.spec_config(),
        k1.endpoints_view(now_ms),
        k1.request_view(tokens),
        k1.spec_block_size(),
        w1,
        w2,
    );
}

/// The overlap vector of a request never loses a worker, nor shrinks one's
/// overlap, when the request's tokens are extended.
pub proof fn lemma_request_overlap_monotone(k: &KvRouter, t: Seq<u32>, t2: Seq<u32>, w: i64)
    requires
        k.wf(),
        t2.len() <= u32::MAX,
        t.len() <= t2.len(),
        t2.subrange(0, t.len() as int) == t,
    ensures
        k.request_view(t).overlap.contains_key(w) ==> k.request_view(t2).overlap.contains_key(w)
            && k.request_view(t).overlap[w] <= k.request_view(t2).overlap[w],
{
    let b = k.spec_block_size() as nat;
    lemma_overlap_monotone(k.index(), w, t, t2, b, HASH_SEED);
    lemma_overlap_at_most_blocks(k.index(), w, t2, b, HASH_SEED);
    vstd::arithmetic::div_mod::lemma_div_is_ordered_by_denominator(t2.len() as int, 1, b as int);
}

/// Every overlap in the vector of a request is at least 1 and at most the
/// number of complete blocks of the request.
pub proof fn lemma_request_overlap_bounded(k: &KvRouter, t: Seq<u32>, w: i64)
    requires
        k.wf(),
        t.len() <= u32::MAX,
        k.request_view(t).overlap.contains_key(w),
    ensures
        1 <= k.request_view(t).overlap[w] <= t.len() / (k.spec_block_size() as nat),
{
    let b = k.spec_block_size() as nat;
    lemma_overlap_at_most_blocks(k.index(), w, t, b, HASH_SEED);
    vstd::arithmetic::div_mod::lemma_div_is_ordered_by_denominator(t.len() as int, 1, b as int);
}

/// Once a worker is not live (it went down and the down notice was drained),
/// no request is routed to it and no overlap vector holds it.
pub proof fn lemma_down_never_chosen(k: &KvRouter, tokens: Seq<u32>, now_ms: u64, w: i64)
    requires
        !k.live().contains(w),
    ensures
        !is_choice(
            k.spec_config(),
            k.endpoints_view(now_ms),
            k.request_view(tokens),
            k.spec_block_size(),
            w,
        ),
        !k.request_view(tokens).overlap.contains_key(w),
{
    lemma_order_lists_live(&k.endpoints, w);
}

/// Routing is deterministic: for the same router state, tokens and time, the
/// choice is the same worker.
pub proof fn lemma_route_deterministic(k: &KvRouter, tokens: Seq<u32>, now_ms: u64, w1: i64, w2: i64)
    requires
        is_choice(
            k.spec_config(),
            k.endpoints_view(now_ms),
            k.request_view(tokens),
            k.spec_block_size(),
            w1,
        ),
        is_choice(
            k.spec_config(),
            k.endpoints_view(now_ms),
            k.request_view(tokens),
            k.spec_block_size(),
            w2,
        ),
    ensures
        w1 == w2,
{
    lemma_choice_unique(
        k.spec_config(),
        k.endpoints_view(now_ms),
        k.request_view(tokens),
        k.spec_block_size(),
        w1,
        w2,
    );
}

/// First wait before reconnecting an interrupted stream, in milliseconds.
pub const BACKOFF_START_MS: u64 = 100;

/// Longest wait before reconnecting, in milliseconds.
pub const BACKOFF_MAX_MS: u64 = 5000;

/// The wait before the next reconnection attempt: 100 ms at first, then
/// doubled after each failure, up to 5 s.
pub fn next_backoff_ms(previous_ms: Option<u64>) -> (r: u64)
    ensures
        r == match previous_ms {
            None => BACKOFF_START_MS as int,
            Some(p) => if 2 * p < BACKOFF_MAX_MS {
                2 * p
            } else {
                BACKOFF_MAX_MS as int
            },
        },
{
    match previous_ms {
        None => BACKOFF_START_MS,
        Some(p) => {
            if p < BACKOFF_MAX_MS / 2 {
                2 * p
            } else {
                BACKOFF_MAX_MS
            }
        },
    }
}

} // verus!
