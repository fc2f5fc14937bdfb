//! The set of live worker instances, kept from the discovery layer's up and
//! down notices.
use vstd::prelude::*;

verus! {

/// `s` without the occurrences of `id`, in the same order.
pub open spec fn without(s: Seq<i64>, id: i64) -> Seq<i64>
    decreases s.len(),
{
    if s.len() == 0 {
        s
    } else if s.last() == id {
        without(s.drop_last(), id)
    } else {
        without(s.drop_last(), id).push(s.last())
    }
}

proof fn lemma_without_absent(s: Seq<i64>, id: i64)
    requires
        !s.contains(id),
    ensures
        without(s, id) == s,
    decreases s.len(),
{
    if s.len() > 0 {
        assert(!s.drop_last().contains(id)) by {
            if s.drop_last().contains(id) {
                let j = choose|j: int| 0 <= j < s.len() - 1 && s.drop_last()[j] == id;
                assert(s[j] == id);
            }
        }
        lemma_without_absent(s.drop_last(), id);
        assert(s.drop_last().push(s.last()) =~= s);
    }
}

proof fn lemma_without_remove(s: Seq<i64>, id: i64, i: int)
    requires
        s.no_duplicates(),
        0 <= i < s.len(),
        s[i] == id,
    ensures
        without(s, id) == s.remove(i),
    decreases s.len(),
{
    let d = s.drop_last();
    assert(d.no_duplicates());
    if i == s.len() - 1 {
        assert(!d.contains(id)) by {
            if d.contains(id) {
                let j = choose|j: int| 0 <= j < d.len() && d[j] == id;
                assert(s[j] == s[i]);
            }
        }
        lemma_without_absent(d, id);
        assert(s.remove(i) =~= d);
    } else {
        assert(s.last() != id);
        lemma_without_remove(d, id, i);
        assert(s.remove(i) =~= d.remove(i).push(s.last()));
    }
}

/// The worker instance ids that are currently live.
pub struct WorkerEndpointSet {
    live: Vec<i64>,
}

impl View for WorkerEndpointSet {
    type V = Set<i64>;

    closed spec fn view(&self) -> Set<i64> {
        self.live@.to_set()
    }
}

impl WorkerEndpointSet {
    /// Every id is listed once.
    pub closed spec fn wf(&self) -> bool {
        self.live@.no_duplicates()
    }

    /// The live ids in the order in which they came up.
    pub closed spec fn order(&self) -> Seq<i64> {
        self.live@
    }

    /// A set with no live worker.
    pub fn new() -> (r: WorkerEndpointSet)
        ensures
            r.wf(),
            r@ == Set::<i64>::empty(),
            r.order() == Seq::<i64>::empty(),
    {
        let r = WorkerEndpointSet { live: Vec::new() };
        assert(r@ =~= Set::<i64>::empty());
        r
    }

    fn position(&self, id: i64) -> (r: Option<usize>)
        ensures
            match r {
                Some(i) => i < self.live@.len() && self.live@[i as int] == id,
                None => !self.live@.contains(id),
            },
    {
        let mut i: usize = 0;
        while i < self.live.len()
            invariant
                i <= self.live@.len(),
                forall|j: int| 0 <= j < i ==> self.live@[j] != id,
            decreases self.live@.len() - i,
        {
            if self.live[i] == id {
                return Some(i);
            }
            i = i + 1;
        }
        None
    }

    /// Whether `id` is live.
    pub fn is_live(&self, id: i64) -> (r: bool)
        ensures
            r == self@.contains(id),
    {
        self.position(id).is_some()
    }

    /// Records that `id` came up.
    pub fn up(&mut self, id: i64)
        requires
            old(self).wf(),
        ensures
            final(self).wf(),
            final(self)@ == old(self)@.insert(id),
            final(self).order() == if old(self).order().contains(id) {
                old(self).order()
            } else {
                old(self).order().push(id)
            },
    {
        if self.position(id).is_none() {
            self.live.push(id);
            proof {
                assert forall|i: int, j: int|
                    0 <= i < j < self.live@.len() implies self.live@[i] != self.live@[j] by {
                    if j == self.live@.len() - 1 {
                        assert(old(self).live@.contains(self.live@[i]));
                    } else {
                        assert(old(self).live@[i] == self.live@[i]);
                    }
                }
                assert forall|x: i64|
                    self.live@.contains(x) <==> old(self).live@.contains(x) || x == id by {
                    if self.live@.contains(x) {
                        let j = choose|j: int| 0 <= j < self.live@.len() && self.live@[j] == x;
                        if j < old(self).live@.len() {
                            assert(old(self).live@[j] == x);
                        }
                    }
                    if old(self).live@.contains(x) {
                        let j = choose|j: int| 0 <= j < old(self).live@.len() && old(self).live@[j] == x;
                        assert(self.live@[j] == x);
                    }
                    if x == id {
                        assert(self.live@[self.live@.len() - 1] == x);
                    }
                }
            }
            assert(self@ =~= old(self)@.insert(id));
        } else {
            assert(self@ =~= old(self)@.insert(id));
        }
    }

    /// Records that `id` went down.
    pub fn down(&mut self, id: i64)
        requires
            old(self).wf(),
        ensures
            final(self).wf(),
            final(self)@ == old(self)@.remove(id),
            final(self).order() == without(old(self).order(), id),
    {
        match self.position(id) {
            Some(i) => {
                let ghost before = self.live@;
                self.live.remove(i);
                proof {
                    assert(self.live@ =~= before.remove(i as int));
                    assert forall|x: i64| self.live@.contains(x) <==> before.contains(x) && x != id by {
                        if self.live@.contains(x) {
                            let j = choose|j: int| 0 <= j < self.live@.len() && self.live@[j] == x;
                            if j < i {
                                assert(before[j] == x);
                            } else {
                                assert(before[j + 1] == x);
                            }
                        }
                        if before.contains(x) && x != id {
                            let j = choose|j: int| 0 <= j < before.len() && before[j] == x;
                            if j < i {
                                assert(self.live@[j] == x);
                            } else {
                                assert(self.live@[j - 1] == x);
                            }
                        }
                    }
                    assert(self@ =~= old(self)@.remove(id));
                    lemma_without_remove(before, id, i as int);
                }
            },
            None => {
                proof {
                    lemma_without_absent(self.live@, id);
                }
                assert(self@ =~= old(self)@.remove(id));
            },
        }
    }

    /// The live ids, each once.
    pub fn live_workers(&self) -> (r: Vec<i64>)
        requires
            self.wf(),
        ensures
            r@ == self.order(),
            r@.no_duplicates(),
            r@.to_set() == self@,
    {
        self.live.clone()
    }
}

/// The set of live ids is the set of ids in the listing, which lists each once.
pub proof fn lemma_order_lists_live(s: &WorkerEndpointSet, id: i64)
    ensures
        s.wf() ==> s.order().no_duplicates(),
        s.order().contains(id) == s@.contains(id),
{
}

} // verus!
