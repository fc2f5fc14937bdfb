//! The bounded queue of block residency events waiting for the indexer. When it
//! is full, an incoming event pushes out the oldest pending event of its own
//! worker, never one of another worker.
use vstd::prelude::*;
use crate::indexer::RouterEvent;

verus! {

/// The position of the first event of `w` in `s` at or after `i`, or `s.len()`
/// if there is none.
pub open spec fn first_of_worker(s: Seq<RouterEvent>, w: i64, i: int) -> int
    decreases s.len() - i,
{
    if i < 0 || i >= s.len() {
        s.len() as int
    } else if s[i].spec_worker() == w {
        i
    } else {
        first_of_worker(s, w, i + 1)
    }
}

/// The pending events after `e` arrives at a queue of capacity `cap`.
pub open spec fn push_spec(s: Seq<RouterEvent>, cap: nat, e: RouterEvent) -> Seq<RouterEvent> {
    let i = first_of_worker(s, e.spec_worker(), 0);
    if s.len() < cap {
        s.push(e)
    } else if i < s.len() {
        s.remove(i).push(e)
    } else {
        s
    }
}

/// A bounded queue of pending events.
pub struct EventQueue {
    pending: Vec<RouterEvent>,
    capacity: usize,
    dropped: u64,
}

impl View for EventQueue {
    type V = Seq<RouterEvent>;

    closed spec fn view(&self) -> Seq<RouterEvent> {
        self.pending@
    }
}

impl EventQueue {
    pub closed spec fn spec_capacity(&self) -> nat {
        self.capacity as nat
    }

    pub closed spec fn spec_dropped(&self) -> u64 {
        self.dropped
    }

    /// An empty queue that holds at most `capacity` events.
    pub fn new(capacity: usize) -> (r: EventQueue)
        ensures
            r@ == Seq::<RouterEvent>::empty(),
            r.spec_capacity() == capacity,
            r.spec_dropped() == 0,
    {
        EventQueue { pending: Vec::new(), capacity, dropped: 0 }
    }

    /// The number of pending events.
    pub fn len(&self) -> (r: usize)
        ensures
            r == self@.len(),
    {
        self.pending.len()
    }

    /// How many events were dropped for want of room (saturating).
    pub fn dropped(&self) -> (r: u64)
        ensures
            r == self.spec_dropped(),
    {
        self.dropped
    }

    fn first_of(&self, w: i64) -> (r: usize)
        ensures
            r == first_of_worker(self@, w, 0),
    {
        let mut i: usize = 0;
        while i < self.pending.len()
            invariant
                i <= self.pending@.len(),
                first_of_worker(self@, w, 0) == first_of_worker(self@, w, i as int),
            decreases self.pending@.len() - i,
        {
            if self.pending[i].worker() == w {
                return i;
            }
            i = i + 1;
        }
        i
    }

    /// Enqueues `e`. When the queue is full, the oldest pending event of the
    /// same worker leaves to make room; if that worker has none pending, `e` is
    /// dropped. Either way one event is counted as dropped.
    pub fn push(&mut self, e: RouterEvent)
        ensures
            final(self)@ == push_spec(old(self)@, old(self).spec_capacity(), e),
            final(self).spec_capacity() == old(self).spec_capacity(),
            final(self).spec_dropped() == if old(self)@.len() < old(self).spec_capacity() {
                old(self).spec_dropped()
            } else if old(self).spec_dropped() < u64::MAX {
                (old(self).spec_dropped() + 1) as u64
            } else {
                old(self).spec_dropped()
            },
    {
        if self.pending.len() < self.capacity {
            self.pending.push(e);
            return;
        }
        let i = self.first_of(e.worker());
        if i < self.pending.len() {
            self.pending.remove(i);
            self.pending.push(e);
        }
        self.dropped = self.dropped.saturating_add(1);
    }

    /// Takes out the oldest pending event.
    pub fn pop(&mut self) -> (r: Option<RouterEvent>)
        ensures
            old(self)@.len() == 0 ==> r is None && final(self)@ == old(self)@,
            old(self)@.len() > 0 ==> r == Some(old(self)@[0]) && final(self)@ == old(self)@.drop_first(),
            final(self).spec_capacity() == old(self).spec_capacity(),
            final(self).spec_dropped() == old(self).spec_dropped(),
    {
        if self.pending.len() == 0 {
            None
        } else {
            let e = self.pending.remove(0);
            assert(self@ =~= old(self)@.drop_first());
            Some(e)
        }
    }
}

/// A full queue never loses an event of another worker: every event of a
/// worker other than the incoming one's stays pending, in the same order.
pub proof fn lemma_push_keeps_other_workers(s: Seq<RouterEvent>, cap: nat, e: RouterEvent)
    ensures
        push_spec(s, cap, e).filter(|x: RouterEvent| x.spec_worker() != e.spec_worker())
            == s.filter(|x: RouterEvent| x.spec_worker() != e.spec_worker()),
{
    let w = e.spec_worker();
    let f = |x: RouterEvent| x.spec_worker() != w;
    let i = first_of_worker(s, w, 0);
    lemma_first_of_worker(s, w, 0);
    if s.len() < cap {
        Seq::filter_distributes_over_add(s, seq![e], f);
        assert(s.push(e) =~= s + seq![e]);
        assert(seq![e].filter(f) =~= Seq::<RouterEvent>::empty()) by {
            reveal_with_fuel(Seq::filter, 2);
            assert(seq![e].drop_last() =~= Seq::<RouterEvent>::empty());
            assert(seq![e].last() == e);
            assert(!f(e));
        }
        assert(s.filter(f) + Seq::<RouterEvent>::empty() =~= s.filter(f));
    } else if i < s.len() {
        let pre = s.subrange(0, i);
        let post = s.subrange(i + 1, s.len() as int);
        assert(s =~= pre + seq![s[i]] + post);
        assert(s.remove(i).push(e) =~= pre + post + seq![e]);
        Seq::filter_distributes_over_add(pre + seq![s[i]], post, f);
        Seq::filter_distributes_over_add(pre, seq![s[i]], f);
        Seq::filter_distributes_over_add(pre + post, seq![e], f);
        Seq::filter_distributes_over_add(pre, post, f);
        assert(seq![e].filter(f) =~= Seq::<RouterEvent>::empty()) by {
            reveal_with_fuel(Seq::filter, 2);
            assert(seq![e].drop_last() =~= Seq::<RouterEvent>::empty());
            assert(seq![e].last() == e);
            assert(!f(e));
        }
        assert(seq![s[i]].filter(f) =~= Seq::<RouterEvent>::empty()) by {
            reveal_with_fuel(Seq::filter, 2);
            assert(seq![s[i]].drop_last() =~= Seq::<RouterEvent>::empty());
        }
        assert(pre.filter(f) + Seq::<RouterEvent>::empty() =~= pre.filter(f));
        assert((pre + post).filter(f) + Seq::<RouterEvent>::empty() =~= (pre + post).filter(f));
    }
}

proof fn lemma_first_of_worker(s: Seq<RouterEvent>, w: i64, i: int)
    requires
        0 <= i <= s.len(),
    ensures
        i <= first_of_worker(s, w, i) <= s.len(),
        first_of_worker(s, w, i) < s.len() ==> s[first_of_worker(s, w, i)].spec_worker() == w,
    decreases s.len() - i,
{
    if i < s.len() && s[i].spec_worker() != w {
        lemma_first_of_worker(s, w, i + 1);
    }
}

} // verus!
