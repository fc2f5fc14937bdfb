use kv_router::event_queue::EventQueue;
use kv_router::hasher::split_tokens;
use kv_router::hasher::HASH_SEED;
use kv_router::indexer::KvIndexer;
use kv_router::indexer::RouterEvent;
use kv_router::metrics::KvMetricsAggregator;
use kv_router::metrics::LoadSnapshot;
use kv_router::router::KvHitRateEvent;
use kv_router::router::next_backoff_ms;
use kv_router::router::KvRouter;
use kv_router::router::RouterError;
use kv_router::scheduler::median;
use kv_router::scheduler::select_random;
use kv_router::scheduler::ProcessedEndpoints;
use kv_router::scheduler::RoundRobinSelector;
use kv_router::scheduler::SchedulingRequest;
use kv_router::scheduler::SelectionPolicy;
use kv_router::scheduler::KvSchedulerError;
use kv_router::scheduler::UnknownPolicy;
use kv_router::scheduler::WorkerSelector;
use kv_router::scheduler::WorkerSelectionResult;
use std::collections::HashMap;
use kv_router::scheduler::Coefficients;
use kv_router::scheduler::SchedulerConfig;
use kv_router::scheduler::TieBreak;

const W1: i64 = 1;
const W2: i64 = 2;
const B: u32 = 4;

fn tokens(from: u32, to: u32) -> Vec<u32> {
    (from..=to).collect()
}

fn hashes(t: &Vec<u32>) -> Vec<u64> {
    split_tokens(t, B as usize, HASH_SEED).0
}

fn config() -> SchedulerConfig {
    SchedulerConfig {
        coefficients: Coefficients::default(),
        staleness_threshold_ms: 5000,
        degraded: false,
    }
}

fn router_with(workers: &[i64]) -> KvRouter {
    let mut r = KvRouter::new(B, config()).unwrap();
    for w in workers {
        r.worker_up(*w);
    }
    r
}

fn store_all(r: &mut KvRouter, w: i64, hs: &[u64]) {
    let mut parent = None;
    for h in hs {
        r.apply_event(&RouterEvent::Store { worker: w, block_hash: *h, parent_hash: parent });
        parent = Some(*h);
    }
}

fn snapshot(id: i64, active: u32, waiting: u32, free: u32, at: u64) -> LoadSnapshot {
    LoadSnapshot {
        instance_id: id,
        active_requests: active,
        waiting_tokens: waiting,
        free_kv_blocks: free,
        last_updated_ms: at,
    }
}

#[test]
fn hasher_splits_blocks_and_tail() {
    let (hs, tail) = split_tokens(&tokens(1, 10), 4, HASH_SEED);
    assert_eq!(hs.len(), 2);
    assert_eq!(tail, 2);
    let (hs, tail) = split_tokens(&tokens(1, 3), 4, HASH_SEED);
    assert!(hs.is_empty());
    assert_eq!(tail, 3);
    let (hs, tail) = split_tokens(&vec![], 4, HASH_SEED);
    assert!(hs.is_empty());
    assert_eq!(tail, 0);
}

#[test]
fn hasher_exact_value() {
    // one block of one token: (seed ^ t) * FNV prime, wrapping
    let (hs, _) = split_tokens(&vec![7], 1, 1337);
    assert_eq!(hs, vec![(1337u64 ^ 7).wrapping_mul(0x100000001b3)]);
    let (hs, _) = split_tokens(&vec![7, 9], 1, 1337);
    assert_eq!(hs[1], (hs[0] ^ 9).wrapping_mul(0x100000001b3));
    let (hs2, _) = split_tokens(&vec![7, 9], 2, 1337);
    assert_eq!(hs2, vec![hs[1]]);
}

#[test]
fn hash_prefix_law_example() {
    let x = vec![1, 2, 3, 4, 5, 6, 7, 8, 9, 10, 11, 12];
    let y = vec![1, 2, 3, 4, 5, 6, 7, 8, 99, 10, 11, 12];
    let hx = hashes(&x);
    let hy = hashes(&y);
    assert_eq!(hx[0], hy[0]);
    assert_eq!(hx[1], hy[1]);
    assert_ne!(hx[2], hy[2]);
    // the chain makes a block hash depend on the blocks before it
    let z = vec![5, 6, 7, 8];
    assert_ne!(hashes(&z)[0], hx[1]);
}

#[test]
fn scenario_longer_prefix_wins() {
    let mut r = router_with(&[W1, W2]);
    let request = tokens(1, 20);
    let hs = hashes(&request);
    store_all(&mut r, W1, &hs[0..5]);
    store_all(&mut r, W2, &hs[0..4]);
    let idx = {
        let mut i = KvIndexer::new();
        for h in &hs[0..5] {
            i.apply_event(&RouterEvent::Store { worker: W1, block_hash: *h, parent_hash: None });
        }
        for h in &hs[0..4] {
            i.apply_event(&RouterEvent::Store { worker: W2, block_hash: *h, parent_hash: None });
        }
        i
    };
    let m = idx.find_matches(&hs, &vec![W1, W2]);
    assert_eq!(m.get(&W1), Some(&5));
    assert_eq!(m.get(&W2), Some(&4));
    let s = r.route(&request, None, 0).unwrap();
    assert_eq!(s.worker_id, W1);
    assert_eq!(s.overlap_blocks, 5);
    assert_eq!(s.tiebreak, TieBreak::Score);
}

#[test]
fn scenario_strict_prefix() {
    let mut r = router_with(&[W1, W2]);
    let request = tokens(1, 20);
    store_all(&mut r, W1, &hashes(&tokens(1, 16)));
    store_all(&mut r, W2, &hashes(&tokens(5, 20)));
    let mut idx = KvIndexer::new();
    for h in hashes(&tokens(1, 16)) {
        idx.apply_event(&RouterEvent::Store { worker: W1, block_hash: h, parent_hash: None });
    }
    for h in hashes(&tokens(5, 20)) {
        idx.apply_event(&RouterEvent::Store { worker: W2, block_hash: h, parent_hash: None });
    }
    let m = idx.find_matches(&hashes(&request), &vec![W1, W2]);
    assert_eq!(m.get(&W1), Some(&4));
    assert_eq!(m.get(&W2), None);
    let s = r.route(&request, None, 0).unwrap();
    assert_eq!(s.worker_id, W1);
    assert_eq!(s.overlap_blocks, 4);
}

#[test]
fn scenario_worker_down() {
    let mut r = router_with(&[W1]);
    let s = r.route(&tokens(1, 8), None, 0).unwrap();
    assert_eq!(s.worker_id, W1);
    r.worker_down(W1);
    assert!(!r.is_live(W1));
    assert_eq!(r.route(&tokens(1, 8), None, 0), Err(RouterError::NoWorkersAvailable));
}

#[test]
fn scenario_capacity_filter() {
    let mut r = router_with(&[W1, W2]);
    r.update_load(snapshot(W1, 10, 2000, 2, 1000));
    r.update_load(snapshot(W2, 1, 0, 100, 1000));
    let s = r.route(&tokens(1, 100), None, 1000).unwrap();
    assert_eq!(s.worker_id, W2);
    assert_eq!(s.overlap_blocks, 0);
}

#[test]
fn scenario_capacity_relaxed_when_none_fits() {
    let mut r = router_with(&[W1, W2]);
    r.update_load(snapshot(W1, 0, 0, 1, 1000));
    r.update_load(snapshot(W2, 5, 0, 1, 1000));
    let s = r.route(&tokens(1, 100), None, 1000).unwrap();
    assert_eq!(s.worker_id, W1);
    assert_eq!(s.tiebreak, TieBreak::Score);
}

#[test]
fn scenario_evict_breaks_prefix() {
    let (ha, hb) = (100u64, 200u64);
    let mut idx = KvIndexer::new();
    idx.apply_event(&RouterEvent::Store { worker: W1, block_hash: ha, parent_hash: None });
    idx.apply_event(&RouterEvent::Store { worker: W1, block_hash: hb, parent_hash: Some(ha) });
    idx.apply_event(&RouterEvent::Evict { worker: W1, block_hash: ha });
    idx.apply_event(&RouterEvent::Store { worker: W2, block_hash: ha, parent_hash: None });
    let m = idx.find_matches(&vec![ha, hb], &vec![W1, W2]);
    assert_eq!(m.get(&W1), None);
    assert_eq!(m.get(&W2), Some(&1));
    assert_eq!(idx.worker_overlap(W1, &vec![ha, hb]), 0);
    assert_eq!(idx.worker_overlap(W2, &vec![ha, hb]), 1);
}

fn flood(evict_at: usize) -> bool {
    let h = 42u64;
    let mut idx = KvIndexer::new();
    for i in 0..=1000 {
        if i == evict_at {
            idx.apply_event(&RouterEvent::Evict { worker: W1, block_hash: h });
        }
        if i < 1000 {
            idx.apply_event(&RouterEvent::Store { worker: W1, block_hash: h, parent_hash: None });
        }
    }
    idx.holds(W1, h)
}

#[test]
fn scenario_duplicate_flood() {
    assert!(flood(0));
    assert!(flood(1));
    assert!(flood(517));
    assert!(flood(999));
    assert!(!flood(1000));
}

#[test]
fn store_twice_same_as_once() {
    let mut a = KvIndexer::new();
    let mut b = KvIndexer::new();
    let e = RouterEvent::Store { worker: W1, block_hash: 5, parent_hash: None };
    a.apply_event(&e);
    b.apply_event(&e);
    b.apply_event(&e);
    assert_eq!(a.holds(W1, 5), b.holds(W1, 5));
    b.apply_event(&RouterEvent::Evict { worker: W1, block_hash: 5 });
    assert!(!b.holds(W1, 5));
}

#[test]
fn store_then_evict_restores() {
    let mut idx = KvIndexer::new();
    idx.apply_event(&RouterEvent::Store { worker: W1, block_hash: 1, parent_hash: None });
    idx.apply_event(&RouterEvent::Store { worker: W1, block_hash: 2, parent_hash: Some(1) });
    idx.apply_event(&RouterEvent::Evict { worker: W1, block_hash: 2 });
    assert!(idx.holds(W1, 1));
    assert!(!idx.holds(W1, 2));
    // evicting what is not held changes nothing
    idx.apply_event(&RouterEvent::Evict { worker: W2, block_hash: 1 });
    assert!(idx.holds(W1, 1));
}

#[test]
fn clear_purges_worker() {
    let mut r = router_with(&[W1, W2]);
    let request = tokens(1, 8);
    let hs = hashes(&request);
    store_all(&mut r, W1, &hs);
    store_all(&mut r, W2, &hs[0..1]);
    r.apply_event(&RouterEvent::Clear { worker: W1 });
    let s = r.route(&request, None, 0).unwrap();
    assert_eq!(s.worker_id, W2);
    assert_eq!(s.overlap_blocks, 1);
    let mut idx = KvIndexer::new();
    idx.apply_event(&RouterEvent::Store { worker: W1, block_hash: hs[0], parent_hash: None });
    idx.apply_event(&RouterEvent::Clear { worker: W1 });
    assert!(idx.find_matches(&hs, &vec![W1]).is_empty());
}

#[test]
fn overlap_grows_with_prefix_and_is_bounded() {
    let mut idx = KvIndexer::new();
    for h in hashes(&tokens(1, 12)) {
        idx.apply_event(&RouterEvent::Store { worker: W1, block_hash: h, parent_hash: None });
    }
    let mut last = 0;
    for n in 0..=16u32 {
        let t: Vec<u32> = (1..=n).collect();
        let o = idx.worker_overlap(W1, &hashes(&t));
        assert!(o >= last);
        assert!(o <= t.len() / 4);
        last = o;
    }
    assert_eq!(last, 3);
}

#[test]
fn routing_is_deterministic() {
    let build = || {
        let mut r = router_with(&[W2, W1]);
        let hs = hashes(&tokens(1, 8));
        store_all(&mut r, W1, &hs[0..1]);
        store_all(&mut r, W2, &hs[0..1]);
        r
    };
    let a = build().route(&tokens(1, 8), Some(3), 0).unwrap();
    let b = build().route(&tokens(1, 8), None, 0).unwrap();
    assert_eq!(a, b);
    // equal on everything else: the lower id is chosen
    assert_eq!(a.worker_id, W1);
    assert_eq!(a.tiebreak, TieBreak::WorkerId);
}

#[test]
fn tie_broken_by_cache_then_active() {
    // W1: more cached blocks but more waiting so the scores tie
    let mut r = router_with(&[W1, W2]);
    let request = tokens(1, 8);
    let hs = hashes(&request);
    store_all(&mut r, W1, &hs[0..1]);
    r.update_load(snapshot(W1, 0, 0, 100, 0));
    r.update_load(snapshot(W2, 0, 0, 100, 0));
    // W1: 1000*(0+4) - 1000*4 = 0; W2: 1000*(0+8) = 8000
    let s = r.route(&request, None, 0).unwrap();
    assert_eq!(s.worker_id, W1);
    assert_eq!(s.tiebreak, TieBreak::Score);
    // with alpha = 0 and beta = 0 every score is 0: more cached blocks wins
    let cfg = SchedulerConfig {
        coefficients: Coefficients { alpha: 0, beta: 0, gamma: 0 },
        staleness_threshold_ms: 5000,
        degraded: false,
    };
    let mut r2 = KvRouter::new(B, cfg).unwrap();
    r2.worker_up(W2);
    r2.worker_up(W1);
    store_all(&mut r2, W1, &hs[0..1]);
    let s = r2.route(&request, None, 0).unwrap();
    assert_eq!(s.worker_id, W1);
    assert_eq!(s.tiebreak, TieBreak::CacheBlocks);
    // no cache anywhere, fewer active requests wins
    let mut r3 = KvRouter::new(B, cfg).unwrap();
    r3.worker_up(W1);
    r3.worker_up(W2);
    r3.update_load(snapshot(W1, 3, 0, 100, 0));
    r3.update_load(snapshot(W2, 2, 0, 100, 0));
    let s = r3.route(&request, None, 0).unwrap();
    assert_eq!(s.worker_id, W2);
    assert_eq!(s.tiebreak, TieBreak::ActiveRequests);
}

#[test]
fn stale_load_counts_as_median() {
    let mut r = router_with(&[1, 2, 3]);
    r.update_load(snapshot(1, 0, 500, 100, 10_000));
    r.update_load(snapshot(2, 0, 300, 100, 10_000));
    // worker 3 reported long ago: its load is unknown and taken as the median (500)
    r.update_load(snapshot(3, 0, 0, 0, 0));
    let s = r.route(&tokens(1, 4), None, 10_000).unwrap();
    assert_eq!(s.worker_id, 2);
    // a raised waiting count moves the median for worker 3 too
    r.update_load(snapshot(2, 0, 600, 100, 10_000));
    let s = r.route(&tokens(1, 4), None, 10_000).unwrap();
    assert_eq!(s.worker_id, 1);
}

#[test]
fn degraded_halves_cache_weight() {
    let cfg = SchedulerConfig {
        coefficients: Coefficients { alpha: 1000, beta: 1000, gamma: 0 },
        staleness_threshold_ms: 5000,
        degraded: true,
    };
    let mut r = KvRouter::new(B, cfg).unwrap();
    r.worker_up(W1);
    r.worker_up(W2);
    let request = tokens(1, 8);
    let hs = hashes(&request);
    store_all(&mut r, W1, &hs);
    r.update_load(snapshot(W1, 0, 5, 100, 0));
    r.update_load(snapshot(W2, 0, 0, 100, 0));
    // W1: 1000*5 - 500*8 = 1000; W2: 1000*8 = 8000
    let s = r.route(&request, None, 0).unwrap();
    assert_eq!(s.worker_id, W1);
}

#[test]
fn median_values() {
    assert_eq!(median(&vec![]), 0);
    assert_eq!(median(&vec![7]), 7);
    assert_eq!(median(&vec![5, 1, 3]), 3);
    assert_eq!(median(&vec![4, 1, 3, 2]), 3);
    assert_eq!(median(&vec![2, 2, 9]), 2);
}

#[test]
fn router_rejects_zero_block_size() {
    assert!(matches!(KvRouter::new(0, config()), Err(RouterError::InvalidBlockSize)));
    assert_eq!(router_with(&[]).block_size(), B);
}

#[test]
fn metrics_keep_latest() {
    let mut m = KvMetricsAggregator::new();
    m.update(snapshot(W1, 1, 1, 1, 10));
    m.update(snapshot(W1, 2, 2, 2, 5));
    assert_eq!(m.current().get(&W1).unwrap().active_requests, 1);
    m.update(snapshot(W1, 3, 3, 3, 10));
    assert_eq!(m.current().get(&W1).unwrap().active_requests, 3);
    m.remove(W1);
    assert!(m.current().is_empty());
    assert!(snapshot(W1, 0, 0, 0, 0).is_stale(6000, 5000));
    assert!(!snapshot(W1, 0, 0, 0, 1000).is_stale(6000, 5000));
}

#[test]
fn event_queue_drops_oldest_of_same_worker() {
    let e1 = RouterEvent::Store { worker: W1, block_hash: 1, parent_hash: None };
    let e2 = RouterEvent::Store { worker: W2, block_hash: 2, parent_hash: None };
    let e3 = RouterEvent::Evict { worker: W1, block_hash: 1 };
    let e4 = RouterEvent::Clear { worker: 3 };
    let mut q = EventQueue::new(2);
    q.push(e1);
    q.push(e2);
    q.push(e3);
    assert_eq!(q.len(), 2);
    assert_eq!(q.dropped(), 1);
    q.push(e4);
    assert_eq!(q.dropped(), 2);
    assert_eq!(q.pop(), Some(e2));
    assert_eq!(q.pop(), Some(e3));
    assert_eq!(q.pop(), None);
}

#[test]
fn apply_events_in_order() {
    let mut r = router_with(&[W1]);
    let hs = hashes(&tokens(1, 8));
    let events = vec![
        RouterEvent::Store { worker: W1, block_hash: hs[0], parent_hash: None },
        RouterEvent::Store { worker: W1, block_hash: hs[1], parent_hash: Some(hs[0]) },
        RouterEvent::Evict { worker: W1, block_hash: hs[1] },
    ];
    r.apply_events(&events);
    let s = r.route(&tokens(1, 8), None, 0).unwrap();
    assert_eq!(s.overlap_blocks, 1);
}

#[test]
fn schedule_returns_worker_id_and_hit_rate() {
    let mut r = router_with(&[W1, W2]);
    let request = tokens(1, 8);
    store_all(&mut r, W2, &hashes(&request));
    assert_eq!(r.schedule(&request, 0, 0), Ok(W2));
    let s = r.route(&request, None, 0).unwrap();
    let e = KvHitRateEvent::of(&s, 8);
    assert_eq!(e, KvHitRateEvent { worker_id: W2, request_isl: 8, cached_blocks: 2 });
    assert_eq!(router_with(&[]).schedule(&request, 0, 0), Err(RouterError::NoWorkersAvailable));
}

#[test]
fn route_on_load_ignores_cache() {
    let mut r = router_with(&[W1, W2]);
    let request = tokens(1, 8);
    store_all(&mut r, W2, &hashes(&request));
    r.update_load(snapshot(W1, 0, 0, 100, 0));
    r.update_load(snapshot(W2, 0, 10, 100, 0));
    assert_eq!(r.route(&request, None, 0).unwrap().worker_id, W2);
    let s = r.route_on_load(&request, 0).unwrap();
    assert_eq!(s.worker_id, W1);
    assert_eq!(s.overlap_blocks, 0);
    assert_eq!(router_with(&[]).route_on_load(&request, 0), Err(RouterError::NoWorkersAvailable));
}

#[test]
fn stream_gap_degrades_index() {
    let mut r = router_with(&[W1, W2]);
    let request = tokens(1, 8);
    store_all(&mut r, W1, &hashes(&request));
    r.update_load(snapshot(W1, 0, 5, 100, 0));
    r.update_load(snapshot(W2, 0, 0, 100, 0));
    // W1: 1000*5 - 1000*8 = -3000; W2: 8000
    assert_eq!(r.route(&request, None, 0).unwrap().worker_id, W1);
    r.stream_gap(6000);
    // W1: 1000*5 - 500*8 = 1000; still W1
    assert_eq!(r.route(&request, None, 0).unwrap().worker_id, W1);
    r.update_load(snapshot(W1, 0, 9, 100, 0));
    // W1: 9000 - 4000 = 5000 < 8000
    assert_eq!(r.route(&request, None, 0).unwrap().worker_id, W1);
    r.update_load(snapshot(W1, 0, 13, 100, 0));
    // W1: 13000 - 4000 = 9000 > 8000
    assert_eq!(r.route(&request, None, 0).unwrap().worker_id, W2);
    r.stream_gap(10);
    // recovered: W1: 13000 - 8000 = 5000
    assert_eq!(r.route(&request, None, 0).unwrap().worker_id, W1);
}

#[test]
fn backoff_doubles_up_to_limit() {
    assert_eq!(next_backoff_ms(None), 100);
    assert_eq!(next_backoff_ms(Some(100)), 200);
    assert_eq!(next_backoff_ms(Some(2499)), 4998);
    assert_eq!(next_backoff_ms(Some(2500)), 5000);
    assert_eq!(next_backoff_ms(Some(5000)), 5000);
    assert_eq!(next_backoff_ms(Some(u64::MAX)), 5000);
}

#[test]
fn alternative_policies() {
    assert_eq!(SelectionPolicy::parse("default"), Ok(SelectionPolicy::Default));
    assert_eq!(SelectionPolicy::parse("random"), Ok(SelectionPolicy::Random));
    assert_eq!(SelectionPolicy::parse("round_robin"), Ok(SelectionPolicy::RoundRobin));
    assert_eq!(SelectionPolicy::parse("fastest"), Err(UnknownPolicy));
    let e = ProcessedEndpoints { workers: vec![10, 20, 30], loads: HashMap::new(), now_ms: 0 };
    let mut overlap = HashMap::new();
    overlap.insert(20, 3u32);
    let r = SchedulingRequest { overlap, isl_tokens: 16 };
    let s = select_random(&e, &r, 7).unwrap();
    assert_eq!(s.worker_id, 20);
    assert_eq!(s.overlap_blocks, 3);
    assert_eq!(s.tiebreak, TieBreak::NotRanked);
    let mut rr = RoundRobinSelector::new();
    let picks: Vec<i64> = (0..4).map(|_| rr.select(&e, &r).unwrap().worker_id).collect();
    assert_eq!(picks, vec![10, 20, 30, 10]);
    let none = ProcessedEndpoints { workers: vec![], loads: HashMap::new(), now_ms: 0 };
    assert_eq!(select_random(&none, &r, 1), Err(KvSchedulerError::NoWorkersAvailable));
    assert_eq!(rr.select(&none, &r), Err(KvSchedulerError::NoWorkersAvailable));
}

#[test]
fn router_policies_and_custom_selector() {
    let mut r = router_with(&[W1, W2]);
    let request = tokens(1, 8);
    store_all(&mut r, W2, &hashes(&request));
    // default policy: the cache holder
    assert_eq!(r.route_by_policy(&request, None, 0, 0).unwrap().worker_id, W2);
    r.set_policy(SelectionPolicy::Random);
    let s = r.route_by_policy(&request, None, 0, 2).unwrap();
    assert_eq!(s.worker_id, W1);
    assert_eq!(s.tiebreak, TieBreak::NotRanked);
    assert_eq!(r.route_by_policy(&request, None, 0, 3).unwrap().worker_id, W2);
    r.set_policy(SelectionPolicy::RoundRobin);
    let picks: Vec<i64> =
        (0..3).map(|_| r.route_by_policy(&request, None, 0, 0).unwrap().worker_id).collect();
    assert_eq!(picks, vec![W1, W2, W1]);
    // a selector of the caller's: the default one, given explicitly
    let s = r.route_with_selector(&config(), &request, 0).unwrap();
    assert_eq!(s.worker_id, W2);
    assert_eq!(s.overlap_blocks, 2);
    r.worker_down(W1);
    r.worker_down(W2);
    assert_eq!(
        r.route_by_policy(&request, None, 0, 0),
        Err(RouterError::NoWorkersAvailable)
    );
}

struct FixedChoice(i64);

impl WorkerSelector for FixedChoice {
    fn select_worker(
        &self,
        _workers: &ProcessedEndpoints,
        _request: &SchedulingRequest,
        _block_size: u32,
    ) -> Result<WorkerSelectionResult, KvSchedulerError> {
        Ok(WorkerSelectionResult { worker_id: self.0, overlap_blocks: 0, tiebreak: TieBreak::NotRanked })
    }
}

#[test]
fn custom_selector_must_choose_a_live_worker() {
    let r = router_with(&[W1, W2]);
    let request = tokens(1, 8);
    assert_eq!(r.route_with_selector(&FixedChoice(W2), &request, 0).unwrap().worker_id, W2);
    assert_eq!(
        r.route_with_selector(&FixedChoice(99), &request, 0),
        Err(RouterError::NotLiveChoice)
    );
}
