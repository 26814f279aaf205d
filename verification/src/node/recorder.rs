//! The block recorder: the queue of transactions waiting for the next block,
//! and the height and parent of the block being built.

use vstd::prelude::*;
use crate::node::consensus_data::{BlockConsensusData, ConsensusType, unix_now};

verus! {

/// Capacity of the pending queue.
pub const MAX_PENDING_TXS: usize = 65_536;

/// A transaction waiting for a block, with its arrival time.
#[derive(Debug)]
pub struct PendingTransaction<T> {
    pub tx: T,
    pub received_at: u64,
}

/// The pending queue and the block being built.
#[derive(Debug)]
pub struct BlockRecorder<T> {
    pending: Vec<PendingTransaction<T>>,
    working_height: u64,
    parent_hash: [u8; 32],
}

/// The queue after recording at `now`: a full queue first drops its oldest entry.
pub open spec fn recorded<T>(q: Seq<PendingTransaction<T>>, tx: T, now: u64) -> Seq<PendingTransaction<T>> {
    let kept = if q.len() >= MAX_PENDING_TXS { q.drop_first() } else { q };
    kept.push(PendingTransaction { tx, received_at: now })
}

impl<T> BlockRecorder<T> {
    #[verifier::type_invariant]
    spec fn wf(self) -> bool {
        self.pending@.len() <= MAX_PENDING_TXS
    }

    /// The pending transactions, oldest first.
    pub closed spec fn pending_view(&self) -> Seq<PendingTransaction<T>> {
        self.pending@
    }

    /// The height of the block being built.
    pub closed spec fn height_view(&self) -> u64 {
        self.working_height
    }

    /// The parent of the block being built.
    pub closed spec fn parent_view(&self) -> [u8; 32] {
        self.parent_hash
    }

    /// An empty queue for the block at `working_height` on `parent_hash`.
    pub fn new(parent_hash: [u8; 32], working_height: u64) -> (r: Self)
        ensures
            r.pending_view() == Seq::<PendingTransaction<T>>::empty(),
            r.height_view() == working_height,
            r.parent_view() == parent_hash,
    {
        BlockRecorder { pending: Vec::new(), working_height, parent_hash }
    }

    /// Queues a transaction that arrived at `now`; a full queue drops its oldest.
    pub fn record_transaction_at(&mut self, tx: T, now: u64)
        ensures
            final(self).pending_view() == recorded(old(self).pending_view(), tx, now),
            final(self).height_view() == old(self).height_view(),
            final(self).parent_view() == old(self).parent_view(),
    {
        proof {
            use_type_invariant(&*self);
        }
        let mut pending: Vec<PendingTransaction<T>> = Vec::new();
        std::mem::swap(&mut pending, &mut self.pending);
        let ghost q = pending@;
        if pending.len() >= MAX_PENDING_TXS {
            let _ = pending.remove(0);
            assert(pending@ =~= q.drop_first());
        }
        pending.push(PendingTransaction { tx, received_at: now });
        self.pending = pending;
    }

    /// Queues a transaction that arrives now.
    pub fn record_transaction(&mut self, tx: T)
        ensures
            exists|now: u64| final(self).pending_view() == #[trigger] recorded(old(self).pending_view(), tx, now),
            final(self).height_view() == old(self).height_view(),
            final(self).parent_view() == old(self).parent_view(),
    {
        let now = unix_now();
        self.record_transaction_at(tx, now);
    }

    /// Takes up to `max_count` of the oldest pending transactions.
    pub fn drain_transactions(&mut self, max_count: usize) -> (r: Vec<T>)
        ensures
            ({
                let q = old(self).pending_view();
                let m = if max_count <= q.len() { max_count as int } else { q.len() as int };
                &&& r@ == q.take(m).map_values(|p: PendingTransaction<T>| p.tx)
                &&& final(self).pending_view() == q.skip(m)
            }),
            final(self).height_view() == old(self).height_view(),
            final(self).parent_view() == old(self).parent_view(),
    {
        proof {
            use_type_invariant(&*self);
        }
        let mut pending: Vec<PendingTransaction<T>> = Vec::new();
        std::mem::swap(&mut pending, &mut self.pending);
        let ghost q = pending@;
        let m = if max_count <= pending.len() { max_count } else { pending.len() };
        let rest = pending.split_off(m);
        let ghost taken = pending@;
        let mut rev: Vec<PendingTransaction<T>> = Vec::new();
        while pending.len() > 0
            invariant
                pending@.len() + rev@.len() == m,
                taken.len() == m,
                forall|i: int| 0 <= i < pending@.len() ==> pending@[i] == taken[i],
                forall|i: int| 0 <= i < rev@.len() ==> rev@[i] == taken[m - 1 - i],
            decreases pending@.len(),
        {
            let x = pending.pop().unwrap();
            rev.push(x);
        }
        let mut out: Vec<T> = Vec::new();
        while rev.len() > 0
            invariant
                out@.len() + rev@.len() == m,
                taken.len() == m,
                forall|i: int| 0 <= i < rev@.len() ==> rev@[i] == taken[m - 1 - i],
                forall|i: int| 0 <= i < out@.len() ==> out@[i] == taken[i].tx,
            decreases rev@.len(),
        {
            let x = rev.pop().unwrap();
            out.push(x.tx);
        }
        proof {
            assert(taken =~= q.take(m as int));
            assert(out@ =~= q.take(m as int).map_values(|p: PendingTransaction<T>| p.tx));
            assert(rest@ =~= q.skip(m as int));
        }
        self.pending = rest;
        out
    }

    /// Moves to the next block, on `new_parent_hash`.
    pub fn seal_block(&mut self, new_parent_hash: [u8; 32])
        requires
            old(self).height_view() < u64::MAX,
        ensures
            final(self).height_view() == old(self).height_view() + 1,
            final(self).parent_view() == new_parent_hash,
            final(self).pending_view() == old(self).pending_view(),
    {
        proof {
            use_type_invariant(&*self);
        }
        self.working_height = self.working_height + 1;
        self.parent_hash = new_parent_hash;
    }

    /// The height of the block being built.
    pub fn working_height(&self) -> (r: u64)
        ensures
            r == self.height_view(),
    {
        self.working_height
    }

    /// The parent of the block being built.
    pub fn parent_hash(&self) -> (r: [u8; 32])
        ensures
            r == self.parent_view(),
    {
        self.parent_hash
    }

    /// The number of pending transactions.
    pub fn pending_count(&self) -> (r: usize)
        ensures
            r == self.pending_view().len(),
    {
        self.pending.len()
    }
}

/// A block sealed by the recorder.
#[derive(Debug)]
pub struct SealedBlock<T> {
    pub height: u64,
    pub parent_hash: [u8; 32],
    pub block_hash: [u8; 32],
    pub block_time: u64,
    pub transactions: Vec<T>,
    pub consensus_data: BlockConsensusData,
}

impl<T> SealedBlock<T> {
    /// How the block was produced.
    pub fn consensus_type(&self) -> (r: ConsensusType)
        ensures
            r == self.consensus_data.consensus_type,
    {
        self.consensus_data.consensus_type
    }
}

} // verus!
