//! Fee-priority transaction pool of the node. Entries are kept highest
//! priority first: higher fee first, and on equal fees the earlier arrival.
//! Entries older than the time-to-live are dropped when the pool is drained.

use vstd::prelude::*;
use crate::node::consensus_data::unix_now;

verus! {

/// Maximum seconds a transaction can wait in the mempool.
pub const TTL_SECS: u64 = 90;
/// Maximum mempool size (number of transactions).
pub const MAX_SIZE: usize = 100_000;

/// A pooled transaction with its fee and arrival time.
#[derive(Debug)]
pub struct MempoolEntry<T> {
    pub priority_fee: u64,
    pub received_at: u64,
    pub tx: T,
}

/// `a` is served before `b`: a higher fee, or the same fee and an earlier arrival.
pub open spec fn ranks_before<T>(a: MempoolEntry<T>, b: MempoolEntry<T>) -> bool {
    a.priority_fee > b.priority_fee || (a.priority_fee == b.priority_fee && a.received_at < b.received_at)
}

/// Entries in serving order.
pub open spec fn in_order<T>(es: Seq<MempoolEntry<T>>) -> bool {
    forall|i: int, j: int| 0 <= i < j < es.len() ==> !ranks_before(#[trigger] es[j], #[trigger] es[i])
}

/// Whether an entry has outlived the time-to-live at `now` (never, when it
/// arrived after `now`).
pub open spec fn expired<T>(e: MempoolEntry<T>, now: u64) -> bool {
    now >= e.received_at && now - e.received_at > TTL_SECS
}

/// The entries still alive at `now`, in order.
pub open spec fn live_entries<T>(es: Seq<MempoolEntry<T>>, now: u64) -> Seq<MempoolEntry<T>>
    decreases es.len(),
{
    if es.len() == 0 {
        Seq::empty()
    } else {
        let prev = live_entries(es.drop_last(), now);
        if expired(es.last(), now) { prev } else { prev.push(es.last()) }
    }
}

/// Where an entry is inserted: after every entry it does not rank before.
pub open spec fn insert_position<T>(es: Seq<MempoolEntry<T>>, e: MempoolEntry<T>) -> int
    decreases es.len(),
{
    if es.len() == 0 {
        0
    } else if ranks_before(e, es.last()) {
        insert_position(es.drop_last(), e)
    } else {
        es.len() as int
    }
}

/// The entries after inserting `e`: a full pool first drops its last entry.
pub open spec fn inserted_spec<T>(es: Seq<MempoolEntry<T>>, e: MempoolEntry<T>) -> Seq<MempoolEntry<T>> {
    let kept = if es.len() >= MAX_SIZE { es.subrange(0, MAX_SIZE - 1) } else { es };
    kept.insert(insert_position(kept, e), e)
}

/// How many entries a drain of `n` at `now` takes.
pub open spec fn drain_count<T>(es: Seq<MempoolEntry<T>>, n: usize, now: u64) -> int {
    let live = live_entries(es, now);
    if n <= live.len() { n as int } else { live.len() as int }
}

/// The transactions a drain of `n` at `now` returns.
pub open spec fn drained_spec<T>(es: Seq<MempoolEntry<T>>, n: usize, now: u64) -> Seq<T> {
    live_entries(es, now).take(drain_count(es, n, now)).map_values(|e: MempoolEntry<T>| e.tx)
}

/// The entries a drain of `n` at `now` leaves.
pub open spec fn remaining_spec<T>(es: Seq<MempoolEntry<T>>, n: usize, now: u64) -> Seq<MempoolEntry<T>> {
    live_entries(es, now).skip(drain_count(es, n, now))
}

proof fn lemma_live_in_order<T>(es: Seq<MempoolEntry<T>>, now: u64)
    requires
        in_order(es),
    ensures
        in_order(live_entries(es, now)),
        forall|x: MempoolEntry<T>| live_entries(es, now).contains(x) ==> es.contains(x),
        live_entries(es, now).len() <= es.len(),
    decreases es.len(),
{
    if es.len() > 0 {
        let d = es.drop_last();
        assert(in_order(d)) by {
            assert forall|i: int, j: int| 0 <= i < j < d.len() implies !ranks_before(#[trigger] d[j], #[trigger] d[i]) by {
                assert(d[i] == es[i] && d[j] == es[j]);
            }
        }
        lemma_live_in_order(d, now);
        let prev = live_entries(d, now);
        assert forall|x: MempoolEntry<T>| prev.contains(x) implies es.contains(x) by {
            assert(d.contains(x));
            let k = choose|k: int| 0 <= k < d.len() && d[k] == x;
            assert(d[k] == es[k]);
        }
        if !expired(es.last(), now) {
            let s = prev.push(es.last());
            assert forall|i: int, j: int| 0 <= i < j < s.len() implies !ranks_before(#[trigger] s[j], #[trigger] s[i]) by {
                if j == s.len() - 1 {
                    assert(s[i] == prev[i]);
                    assert(prev.contains(s[i]));
                    assert(d.contains(s[i]));
                    let k = choose|k: int| 0 <= k < d.len() && d[k] == s[i];
                    assert(d[k] == es[k]);
                    assert(es[es.len() - 1] == s[j]);
                } else {
                    assert(s[i] == prev[i] && s[j] == prev[j]);
                }
            }
            assert forall|x: MempoolEntry<T>| s.contains(x) implies es.contains(x) by {
                if x == es.last() {
                    assert(es[es.len() - 1] == x);
                } else {
                    let k = choose|k: int| 0 <= k < s.len() && s[k] == x;
                    assert(k < prev.len());
                    assert(prev.contains(x));
                }
            }
        }
    }
}

/// The pool.
#[derive(Debug)]
pub struct Mempool<T> {
    entries: Vec<MempoolEntry<T>>,
}

impl<T> Mempool<T> {
    #[verifier::type_invariant]
    spec fn wf(self) -> bool {
        in_order(self.entries@) && self.entries@.len() <= MAX_SIZE
    }

    /// The entries, in serving order.
    pub closed spec fn entries_view(&self) -> Seq<MempoolEntry<T>> {
        self.entries@
    }

    /// An empty pool.
    pub fn new() -> (p: Self)
        ensures
            p.entries_view() == Seq::<MempoolEntry<T>>::empty(),
    {
        Mempool { entries: Vec::new() }
    }

    /// Adds a transaction that arrived at `now`. A full pool first drops its
    /// lowest-priority entry.
    pub fn insert_at(&mut self, tx: T, priority_fee: u64, now: u64)
        ensures
            final(self).entries_view() == inserted_spec(old(self).entries_view(), MempoolEntry { priority_fee, received_at: now, tx }),
            in_order(old(self).entries_view()),
            in_order(final(self).entries_view()),
    {
        proof {
            use_type_invariant(&*self);
        }
        let mut entries: Vec<MempoolEntry<T>> = Vec::new();
        std::mem::swap(&mut entries, &mut self.entries);
        if entries.len() >= MAX_SIZE {
            entries.truncate(MAX_SIZE - 1);
        }
        let ghost kept = entries@;
        proof {
            assert(in_order(kept)) by {
                assert forall|i: int, j: int| 0 <= i < j < kept.len() implies !ranks_before(#[trigger] kept[j], #[trigger] kept[i]) by {
                    assert(kept[i] == old(self).entries@[i] && kept[j] == old(self).entries@[j]);
                }
            }
        }
        let ghost e = MempoolEntry { priority_fee, received_at: now, tx };
        let mut p = entries.len();
        assert(kept.subrange(0, kept.len() as int) =~= kept);
        while p > 0
            invariant
                0 <= p <= kept.len(),
                entries@ == kept,
                kept.len() < MAX_SIZE,
                in_order(kept),
                insert_position(kept, MempoolEntry { priority_fee, received_at: now, tx })
                    == insert_position(kept.subrange(0, p as int), MempoolEntry { priority_fee, received_at: now, tx }),
                forall|k: int| p <= k < kept.len() ==> ranks_before(MempoolEntry { priority_fee, received_at: now, tx }, #[trigger] kept[k]),
                e == (MempoolEntry { priority_fee, received_at: now, tx }),
            ensures
                p == 0 || !ranks_before(e, kept[p - 1]),
                0 <= p <= kept.len(),
                entries@ == kept,
                insert_position(kept, e) == insert_position(kept.subrange(0, p as int), e),
                forall|k: int| p <= k < kept.len() ==> ranks_before(e, #[trigger] kept[k]),
            decreases p,
        {
            let prev = &entries[p - 1];
            let before = priority_fee > prev.priority_fee || (priority_fee == prev.priority_fee && now < prev.received_at);
            let ghost pre = kept.subrange(0, p as int);
            assert(pre.drop_last() =~= kept.subrange(0, p as int - 1));
            assert(pre.last() == kept[p - 1]);
            if !before {
                break;
            }
            p = p - 1;
        }
        proof {
            if p > 0 {
                let pre = kept.subrange(0, p as int);
                assert(pre.last() == kept[p - 1]);
                assert(insert_position(kept.subrange(0, p as int), e) == p);
            } else {
                assert(kept.subrange(0, 0) =~= Seq::<MempoolEntry<T>>::empty());
            }
            let s = kept.insert(p as int, e);
            assert(in_order(s)) by {
                assert forall|i: int, j: int| 0 <= i < j < s.len() implies !ranks_before(#[trigger] s[j], #[trigger] s[i]) by {
                    if i < p && j < p {
                        assert(s[i] == kept[i] && s[j] == kept[j]);
                    } else if i < p && j == p {
                        assert(s[i] == kept[i]);
                        assert(!ranks_before(e, kept[p - 1]));
                        if p - 1 > i {
                            assert(!ranks_before(kept[p - 1], kept[i]));
                        }
                    } else if i < p && j > p {
                        assert(s[i] == kept[i] && s[j] == kept[j - 1]);
                    } else if i == p {
                        assert(s[j] == kept[j - 1]);
                        assert(ranks_before(e, kept[j - 1]));
                    } else {
                        assert(s[i] == kept[i - 1] && s[j] == kept[j - 1]);
                    }
                }
            }
        }
        entries.insert(p, MempoolEntry { priority_fee, received_at: now, tx });
        self.entries = entries;
    }

    /// Adds a transaction that arrives now.
    pub fn insert(&mut self, tx: T, priority_fee: u64)
        ensures
            exists|now: u64| final(self).entries_view()
                == #[trigger] inserted_spec(old(self).entries_view(), MempoolEntry { priority_fee, received_at: now, tx }),
            in_order(old(self).entries_view()),
            in_order(final(self).entries_view()),
    {
        let now = unix_now();
        self.insert_at(tx, priority_fee, now);
    }

    /// At `now`: drops every expired entry and takes the first `n` of the
    /// rest, in serving order; the others stay.
    pub fn drain_top_at(&mut self, n: usize, now: u64) -> (r: Vec<T>)
        ensures
            r@ == drained_spec(old(self).entries_view(), n, now),
            final(self).entries_view() == remaining_spec(old(self).entries_view(), n, now),
            in_order(old(self).entries_view()),
            in_order(live_entries(old(self).entries_view(), now)),
            in_order(final(self).entries_view()),
    {
        proof {
            use_type_invariant(&*self);
            lemma_live_in_order(self.entries@, now);
        }
        let mut entries: Vec<MempoolEntry<T>> = Vec::new();
        std::mem::swap(&mut entries, &mut self.entries);
        let ghost all = entries@;
        proof {
            lemma_live_in_order(all, now);
        }
        let mut rev: Vec<MempoolEntry<T>> = Vec::new();
        while entries.len() > 0
            invariant
                entries@.len() + rev@.len() == all.len(),
                forall|i: int| 0 <= i < entries@.len() ==> entries@[i] == all[i],
                forall|i: int| 0 <= i < rev@.len() ==> rev@[i] == all[all.len() - 1 - i],
            decreases entries@.len(),
        {
            let e = entries.pop().unwrap();
            rev.push(e);
        }
        let mut out: Vec<T> = Vec::new();
        let mut keep: Vec<MempoolEntry<T>> = Vec::new();
        let ghost live = live_entries(all, now);
        let ghost m = if n <= live.len() { n as int } else { live.len() as int };
        let mut k: usize = 0;
        assert(all.subrange(0, 0) =~= Seq::<MempoolEntry<T>>::empty());
        assert(all.len() <= MAX_SIZE);
        while rev.len() > 0
            invariant
                all.len() <= MAX_SIZE,
                k + rev@.len() == all.len(),
                forall|i: int| 0 <= i < rev@.len() ==> rev@[i] == all[all.len() - 1 - i],
                live == live_entries(all, now),
                m == (if n <= live.len() { n as int } else { live.len() as int }),
                out@.len() <= n,
                out@.len() + keep@.len() == live_entries(all.subrange(0, k as int), now).len(),
                keep@.len() > 0 ==> out@.len() == n,
                out@ == live_entries(all.subrange(0, k as int), now).take(out@.len() as int).map_values(|e: MempoolEntry<T>| e.tx),
                keep@ == live_entries(all.subrange(0, k as int), now).skip(out@.len() as int),
            decreases rev@.len(),
        {
            let e = rev.pop().unwrap();
            let ghost pre = all.subrange(0, k as int + 1);
            proof {
                assert(pre.drop_last() =~= all.subrange(0, k as int));
                assert(pre.last() == all[k as int]);
                assert(e == all[k as int]);
            }
            let ghost lv = live_entries(all.subrange(0, k as int), now);
            let is_expired = now >= e.received_at && now - e.received_at > TTL_SECS;
            if !is_expired {
                if out.len() < n {
                    let ghost o = out@;
                    out.push(e.tx);
                    proof {
                        assert(keep@.len() == 0);
                        let nl = lv.push(e);
                        assert(out@ =~= nl.take(out@.len() as int).map_values(|x: MempoolEntry<T>| x.tx)) by {
                            assert forall|i: int| 0 <= i < out@.len() implies out@[i] == nl.take(out@.len() as int).map_values(|x: MempoolEntry<T>| x.tx)[i] by {
                                if i < o.len() {
                                    assert(o[i] == lv.take(o.len() as int).map_values(|x: MempoolEntry<T>| x.tx)[i]);
                                }
                            }
                        }
                        assert(keep@ =~= nl.skip(out@.len() as int));
                    }
                } else {
                    let ghost kp = keep@;
                    keep.push(e);
                    proof {
                        let nl = lv.push(e);
                        assert(out@ =~= nl.take(out@.len() as int).map_values(|x: MempoolEntry<T>| x.tx)) by {
                            assert forall|i: int| 0 <= i < out@.len() implies out@[i] == nl.take(out@.len() as int).map_values(|x: MempoolEntry<T>| x.tx)[i] by {
                                assert(out@[i] == lv.take(out@.len() as int).map_values(|x: MempoolEntry<T>| x.tx)[i]);
                            }
                        }
                        assert(keep@ =~= nl.skip(out@.len() as int));
                    }
                }
            }
            k = k + 1;
        }
        proof {
            assert(all.subrange(0, all.len() as int) =~= all);
            assert(out@.len() == m);
            assert(live.skip(m) == keep@);
            assert(keep@.len() <= all.len());
            assert(in_order(keep@)) by {
                assert forall|i: int, j: int| 0 <= i < j < keep@.len() implies !ranks_before(#[trigger] keep@[j], #[trigger] keep@[i]) by {
                    assert(keep@[i] == live[i + m] && keep@[j] == live[j + m]);
                }
            }
        }
        self.entries = keep;
        out
    }

    /// Drops expired entries and takes the first `n` of the rest, now.
    pub fn drain_top(&mut self, n: usize) -> (r: Vec<T>)
        ensures
            exists|now: u64| r@ == #[trigger] drained_spec(old(self).entries_view(), n, now)
                && final(self).entries_view() == remaining_spec(old(self).entries_view(), n, now)
                && in_order(live_entries(old(self).entries_view(), now)),
            in_order(old(self).entries_view()),
            in_order(final(self).entries_view()),
    {
        let now = unix_now();
        self.drain_top_at(n, now)
    }

    /// The number of pooled transactions.
    pub fn len(&self) -> (r: usize)
        ensures
            r == self.entries_view().len(),
    {
        self.entries.len()
    }

    /// Whether the pool is empty.
    pub fn is_empty(&self) -> (r: bool)
        ensures
            r == (self.entries_view().len() == 0),
    {
        self.entries.len() == 0
    }
}

} // verus!
