//! The consume worker: moves the highest-priority queued transactions into
//! the block recorder.

use vstd::prelude::*;
use crate::node::scheduler::TransactionPriorityQueue;
use crate::node::recorder::{BlockRecorder, PendingTransaction, recorded};
use crate::node::consensus_data::unix_now;

verus! {

/// The recorder queue after recording each of `txs` in order at `now`.
pub open spec fn recorded_all<T>(q: Seq<PendingTransaction<T>>, txs: Seq<T>, now: u64) -> Seq<PendingTransaction<T>>
    decreases txs.len(),
{
    if txs.len() == 0 {
        q
    } else {
        recorded(recorded_all(q, txs.drop_last(), now), txs.last(), now)
    }
}

/// How many transactions a drain of `max_txs` takes from a queue of `len`.
pub open spec fn drain_len(len: nat, max_txs: usize) -> int {
    if max_txs <= len { max_txs as int } else { len as int }
}

/// The transactions a drain of `max_txs` takes, highest priority first.
pub open spec fn drained_txs<T>(q: Seq<(u64, T)>, max_txs: usize) -> Seq<T> {
    q.take(drain_len(q.len(), max_txs)).map_values(|x: (u64, T)| x.1)
}

/// Drains the priority queue into the block recorder.
#[derive(Debug)]
pub struct ConsumeWorker<T> {
    recorder: BlockRecorder<T>,
    queue: TransactionPriorityQueue<T>,
}

impl<T> ConsumeWorker<T> {
    /// The recorder the worker fills.
    pub closed spec fn recorder_view(&self) -> BlockRecorder<T> {
        self.recorder
    }

    /// The queue the worker drains.
    pub closed spec fn queue_view(&self) -> TransactionPriorityQueue<T> {
        self.queue
    }

    /// A worker over a recorder and a queue.
    pub fn new(recorder: BlockRecorder<T>, queue: TransactionPriorityQueue<T>) -> (w: Self)
        ensures
            w.recorder_view() == recorder,
            w.queue_view() == queue,
    {
        ConsumeWorker { recorder, queue }
    }

    /// Moves the top `max_txs` queued transactions (highest priority first)
    /// into the recorder, each recorded at `now`.
    pub fn consume_at(&mut self, max_txs: usize, now: u64)
        ensures
            ({
                let q = old(self).queue_view().queue_view();
                let m = drain_len(q.len(), max_txs);
                &&& final(self).queue_view().queue_view() == q.skip(m)
                &&& final(self).recorder_view().pending_view() == recorded_all(
                        old(self).recorder_view().pending_view(), drained_txs(q, max_txs), now)
                &&& final(self).recorder_view().height_view() == old(self).recorder_view().height_view()
                &&& final(self).recorder_view().parent_view() == old(self).recorder_view().parent_view()
            }),
    {
        let ghost q0 = self.recorder.pending_view();
        let ghost pq = self.queue.queue_view();
        let mut txs = self.queue.drain_top(max_txs);
        let ghost drained = txs@;
        assert(drained =~= drained_txs(pq, max_txs));
        let ghost pq_after = self.queue.queue_view();
        let mut rev: Vec<T> = Vec::new();
        while txs.len() > 0
            invariant
                txs@.len() + rev@.len() == drained.len(),
                forall|i: int| 0 <= i < txs@.len() ==> txs@[i] == drained[i],
                forall|i: int| 0 <= i < rev@.len() ==> rev@[i] == drained[drained.len() - 1 - i],
            decreases txs@.len(),
        {
            let x = txs.pop().unwrap();
            rev.push(x);
        }
        let ghost h0 = self.recorder.height_view();
        let ghost p0 = self.recorder.parent_view();
        while rev.len() > 0
            invariant
                rev@.len() <= drained.len(),
                forall|i: int| 0 <= i < rev@.len() ==> rev@[i] == drained[drained.len() - 1 - i],
                self.recorder.pending_view() == recorded_all(q0, drained.take(drained.len() - rev@.len()), now),
                self.recorder.height_view() == h0,
                self.recorder.parent_view() == p0,
                self.queue.queue_view() == pq_after,
            decreases rev@.len(),
        {
            let ghost k = drained.len() - rev@.len();
            let tx = rev.pop().unwrap();
            proof {
                assert(drained.take(k + 1).drop_last() =~= drained.take(k));
                assert(drained.take(k + 1).last() == tx);
            }
            self.recorder.record_transaction_at(tx, now);
        }
        assert(drained.take(drained.len() as int) =~= drained);
    }

    /// Moves the top `max_txs` queued transactions into the recorder, now.
    pub fn consume(&mut self, max_txs: usize)
        ensures
            ({
                let q = old(self).queue_view().queue_view();
                let m = drain_len(q.len(), max_txs);
                &&& final(self).queue_view().queue_view() == q.skip(m)
                &&& exists|now: u64| final(self).recorder_view().pending_view() == #[trigger] recorded_all(
                        old(self).recorder_view().pending_view(), drained_txs(q, max_txs), now)
            }),
    {
        let now = unix_now();
        self.consume_at(max_txs, now);
    }

    /// The number of queued transactions.
    pub fn queue_len(&self) -> (r: usize)
        ensures
            r == self.queue_view().queue_view().len(),
    {
        self.queue.len()
    }
}

} // verus!
