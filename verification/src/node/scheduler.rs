//! Priority queue of transactions for the banking stage: highest priority
//! first; when full, the lowest-priority transaction makes room.

use vstd::prelude::*;

verus! {

/// Capacity of the queue.
pub const MAX_PRIORITY_QUEUE_SIZE: usize = 131_072;

#[derive(Debug)]
struct PrioritizedTx<T> {
    priority: u64,
    tx: T,
}

/// Priorities that never increase along the list.
pub open spec fn by_priority<T>(s: Seq<(u64, T)>) -> bool {
    forall|i: int, j: int| 0 <= i < j < s.len() ==> (#[trigger] s[i]).0 >= (#[trigger] s[j]).0
}

/// Where a transaction of priority `p` goes: after every one of at least its priority.
pub open spec fn pq_position<T>(s: Seq<(u64, T)>, p: u64) -> int
    decreases s.len(),
{
    if s.len() == 0 {
        0
    } else if p > s.last().0 {
        pq_position(s.drop_last(), p)
    } else {
        s.len() as int
    }
}

/// The queue after pushing: a full queue first drops its last (lowest) entry.
pub open spec fn pq_pushed<T>(s: Seq<(u64, T)>, p: u64, tx: T) -> Seq<(u64, T)> {
    let kept = if s.len() >= MAX_PRIORITY_QUEUE_SIZE { s.drop_last() } else { s };
    kept.insert(pq_position(kept, p), (p, tx))
}

spec fn view_of<T>(items: Seq<PrioritizedTx<T>>) -> Seq<(u64, T)> {
    items.map_values(|x: PrioritizedTx<T>| (x.priority, x.tx))
}

/// The queue.
#[derive(Debug)]
pub struct TransactionPriorityQueue<T> {
    items: Vec<PrioritizedTx<T>>,
}

impl<T> TransactionPriorityQueue<T> {
    #[verifier::type_invariant]
    spec fn wf(self) -> bool {
        by_priority(view_of(self.items@)) && self.items@.len() <= MAX_PRIORITY_QUEUE_SIZE
    }

    /// The queued (priority, transaction) pairs, highest priority first.
    pub closed spec fn queue_view(&self) -> Seq<(u64, T)> {
        view_of(self.items@)
    }

    /// An empty queue.
    pub fn new() -> (q: Self)
        ensures
            q.queue_view() == Seq::<(u64, T)>::empty(),
    {
        let q = TransactionPriorityQueue { items: Vec::new() };
        assert(q.queue_view() =~= Seq::<(u64, T)>::empty());
        q
    }

    /// Queues a transaction; a full queue first drops its lowest entry.
    pub fn push(&mut self, tx: T, priority: u64)
        ensures
            final(self).queue_view() == pq_pushed(old(self).queue_view(), priority, tx),
    {
        proof {
            use_type_invariant(&*self);
        }
        let mut items: Vec<PrioritizedTx<T>> = Vec::new();
        std::mem::swap(&mut items, &mut self.items);
        let ghost s0 = view_of(items@);
        if items.len() >= MAX_PRIORITY_QUEUE_SIZE {
            let _ = items.pop();
            assert(view_of(items@) =~= s0.drop_last());
        }
        let ghost kept = view_of(items@);
        proof {
            assert(by_priority(kept)) by {
                assert forall|i: int, j: int| 0 <= i < j < kept.len() implies (#[trigger] kept[i]).0 >= (#[trigger] kept[j]).0 by {
                    assert(kept[i] == s0[i] && kept[j] == s0[j]);
                }
            }
        }
        let mut p = items.len();
        assert(kept.subrange(0, kept.len() as int) =~= kept);
        while p > 0
            invariant
                0 <= p <= kept.len(),
                view_of(items@) == kept,
                kept.len() < MAX_PRIORITY_QUEUE_SIZE,
                by_priority(kept),
                pq_position(kept, priority) == pq_position(kept.subrange(0, p as int), priority),
                forall|k: int| p <= k < kept.len() ==> priority > (#[trigger] kept[k]).0,
            ensures
                p == 0 || priority <= kept[p - 1].0,
                0 <= p <= kept.len(),
                view_of(items@) == kept,
                pq_position(kept, priority) == pq_position(kept.subrange(0, p as int), priority),
                forall|k: int| p <= k < kept.len() ==> priority > (#[trigger] kept[k]).0,
            decreases p,
        {
            let ghost pre = kept.subrange(0, p as int);
            assert(pre.drop_last() =~= kept.subrange(0, p as int - 1));
            assert(pre.last() == kept[p - 1]);
            assert(kept[p - 1].0 == items@[p - 1].priority);
            if priority <= items[p - 1].priority {
                break;
            }
            p = p - 1;
        }
        proof {
            if p > 0 {
                let pre = kept.subrange(0, p as int);
                assert(pre.last() == kept[p - 1]);
            } else {
                assert(kept.subrange(0, 0) =~= Seq::<(u64, T)>::empty());
            }
        }
        items.insert(p, PrioritizedTx { priority, tx });
        proof {
            let s = view_of(items@);
            assert(s =~= kept.insert(p as int, (priority, tx)));
            assert(by_priority(s)) by {
                assert forall|i: int, j: int| 0 <= i < j < s.len() implies (#[trigger] s[i]).0 >= (#[trigger] s[j]).0 by {
                    if j < p {
                        assert(s[i] == kept[i] && s[j] == kept[j]);
                    } else if j == p {
                        assert(s[i] == kept[i]);
                        if i < p - 1 {
                            assert(kept[i].0 >= kept[p - 1].0);
                        }
                    } else if i < p {
                        assert(s[i] == kept[i] && s[j] == kept[j - 1]);
                    } else if i == p {
                        assert(s[j] == kept[j - 1]);
                    } else {
                        assert(s[i] == kept[i - 1] && s[j] == kept[j - 1]);
                    }
                }
            }
        }
        self.items = items;
    }

    /// Takes up to `n` transactions, highest priority first.
    pub fn drain_top(&mut self, n: usize) -> (r: Vec<T>)
        ensures
            r@ == old(self).queue_view().take(if n <= old(self).queue_view().len() { n as int } else { old(self).queue_view().len() as int })
                .map_values(|x: (u64, T)| x.1),
            final(self).queue_view() == old(self).queue_view().skip(if n <= old(self).queue_view().len() { n as int } else { old(self).queue_view().len() as int }),
    {
        proof {
            use_type_invariant(&*self);
        }
        let mut items: Vec<PrioritizedTx<T>> = Vec::new();
        std::mem::swap(&mut items, &mut self.items);
        let ghost all = view_of(items@);
        let m = if n <= items.len() { n } else { items.len() };
        let mut rest = items.split_off(m);
        let ghost taken = items@;
        let mut out: Vec<T> = Vec::new();
        let mut rev: Vec<PrioritizedTx<T>> = Vec::new();
        while items.len() > 0
            invariant
                items@.len() + rev@.len() == m,
                taken.len() == m,
                forall|i: int| 0 <= i < items@.len() ==> items@[i] == taken[i],
                forall|i: int| 0 <= i < rev@.len() ==> rev@[i] == taken[m - 1 - i],
            decreases items@.len(),
        {
            let x = items.pop().unwrap();
            rev.push(x);
        }
        while rev.len() > 0
            invariant
                out@.len() + rev@.len() == m,
                taken.len() == m,
                forall|i: int| 0 <= i < rev@.len() ==> rev@[i] == taken[m - 1 - i],
                forall|i: int| 0 <= i < out@.len() ==> out@[i] == taken[i].tx,
            decreases rev@.len(),
        {
            let x = rev.pop().unwrap();
            out.push(x.tx);
        }
        proof {
            assert(view_of(taken) =~= all.take(m as int));
            assert(out@ =~= all.take(m as int).map_values(|x: (u64, T)| x.1));
            assert(view_of(rest@) =~= all.skip(m as int));
            let r = view_of(rest@);
            assert(by_priority(r)) by {
                assert forall|i: int, j: int| 0 <= i < j < r.len() implies (#[trigger] r[i]).0 >= (#[trigger] r[j]).0 by {
                    assert(r[i] == all[i + m] && r[j] == all[j + m]);
                }
            }
        }
        self.items = rest;
        out
    }

    /// The number of queued transactions.
    pub fn len(&self) -> (r: usize)
        ensures
            r == self.queue_view().len(),
    {
        self.items.len()
    }

    /// Whether the queue is empty.
    pub fn is_empty(&self) -> (r: bool)
        ensures
            r == (self.queue_view().len() == 0),
    {
        self.items.len() == 0
    }
}

} // verus!
