//! The node's index of consensus metadata per block, with Nakamoto fork
//! choice (the heaviest cumulative proof-of-work) and the set of outputs
//! whose coin age a proof-of-stake block already consumed.

use vstd::prelude::*;
use crate::node::consensus_data::{BlockConsensusData, ConsensusType, block_work, block_work_spec};
use crate::bytes::bytes32_eq;

verus! {

/// Consensus metadata of one block.
#[derive(Clone, Copy, Debug)]
pub struct BlockConsensusRecord {
    pub height: u64,
    pub block_hash: [u8; 32],
    pub parent_hash: [u8; 32],
    pub block_time: u64,
    pub consensus_data: BlockConsensusData,
    /// Cumulative proof-of-work up to and including this block.
    pub cumulative_work: u128,
}

/// The position of the last record at `height`, or -1.
pub open spec fn last_at_height(rs: Seq<BlockConsensusRecord>, height: u64) -> int
    decreases rs.len(),
{
    if rs.len() == 0 {
        -1
    } else if rs.last().height == height {
        rs.len() - 1
    } else {
        last_at_height(rs.drop_last(), height)
    }
}

/// The position of the last record with `hash`, or -1.
pub open spec fn last_with_hash(rs: Seq<BlockConsensusRecord>, hash: [u8; 32]) -> int
    decreases rs.len(),
{
    if rs.len() == 0 {
        -1
    } else if rs.last().block_hash == hash {
        rs.len() - 1
    } else {
        last_with_hash(rs.drop_last(), hash)
    }
}

/// The highest height recorded, or 0.
pub open spec fn max_height(rs: Seq<BlockConsensusRecord>) -> u64
    decreases rs.len(),
{
    if rs.len() == 0 {
        0
    } else {
        let m = max_height(rs.drop_last());
        if rs.last().height > m { rs.last().height } else { m }
    }
}

/// The record at a height: the last one inserted there.
pub open spec fn record_at(rs: Seq<BlockConsensusRecord>, height: u64) -> Option<BlockConsensusRecord> {
    let i = last_at_height(rs, height);
    if i < 0 { None } else { Some(rs[i]) }
}

/// The record of a hash: the last one inserted with it.
pub open spec fn record_of(rs: Seq<BlockConsensusRecord>, hash: [u8; 32]) -> Option<BlockConsensusRecord> {
    let i = last_with_hash(rs, hash);
    if i < 0 { None } else { Some(rs[i]) }
}

/// The work recorded for a hash, zero when unknown.
pub open spec fn work_of(rs: Seq<BlockConsensusRecord>, hash: [u8; 32]) -> u128 {
    match record_of(rs, hash) {
        Some(r) => r.cumulative_work,
        None => 0,
    }
}

/// The cumulative work of the record at the highest height; zero when empty.
pub open spec fn tip_work_spec(rs: Seq<BlockConsensusRecord>) -> u128 {
    match record_at(rs, max_height(rs)) {
        Some(x) => x.cumulative_work,
        None => 0u128,
    }
}

/// The cumulative work of a block on top of `parent_work`, saturating.
pub open spec fn extended_work(parent_work: u128, data: BlockConsensusData) -> u128 {
    if parent_work + block_work_spec(data) > u128::MAX {
        u128::MAX
    } else {
        (parent_work + block_work_spec(data)) as u128
    }
}

/// The number of proof-of-work blocks at heights below `h` and not below
/// `h - k`, walking down from `h`, and the block time of the last one met.
pub open spec fn pow_walk(rs: Seq<BlockConsensusRecord>, h: u64, window: u64, count: u64, start: u64) -> (u64, u64)
    decreases h,
{
    if count >= window || h == 0 {
        (count, start)
    } else {
        let below = (h - 1) as u64;
        match record_at(rs, below) {
            Some(r) => if r.consensus_data.consensus_type == ConsensusType::ProofOfWork {
                pow_walk(rs, below, window, (count + 1) as u64, r.block_time)
            } else {
                pow_walk(rs, below, window, count, start)
            },
            None => pow_walk(rs, below, window, count, start),
        }
    }
}

proof fn lemma_last_at_height_range(rs: Seq<BlockConsensusRecord>, height: u64)
    ensures
        -1 <= last_at_height(rs, height) < rs.len(),
        last_at_height(rs, height) >= 0 ==> rs[last_at_height(rs, height)].height == height,
    decreases rs.len(),
{
    if rs.len() > 0 {
        lemma_last_at_height_range(rs.drop_last(), height);
    }
}

proof fn lemma_last_with_hash_range(rs: Seq<BlockConsensusRecord>, hash: [u8; 32])
    ensures
        -1 <= last_with_hash(rs, hash) < rs.len(),
        last_with_hash(rs, hash) >= 0 ==> rs[last_with_hash(rs, hash)].block_hash == hash,
    decreases rs.len(),
{
    if rs.len() > 0 {
        lemma_last_with_hash_range(rs.drop_last(), hash);
    }
}

/// The consensus index of the node.
#[derive(Debug)]
pub struct HybridBlockStore {
    records: Vec<BlockConsensusRecord>,
    spent_coin_age: Vec<([u8; 32], u32)>,
}

impl HybridBlockStore {
    /// The records, in insertion order.
    pub closed spec fn records(&self) -> Seq<BlockConsensusRecord> {
        self.records@
    }

    /// The outputs whose coin age was consumed.
    pub closed spec fn spent(&self) -> Set<([u8; 32], u32)> {
        self.spent_coin_age@.to_set()
    }

    /// An empty index.
    pub fn new() -> (s: Self)
        ensures
            s.records() == Seq::<BlockConsensusRecord>::empty(),
            s.spent() == Set::<([u8; 32], u32)>::empty(),
    {
        let s = HybridBlockStore { records: Vec::new(), spent_coin_age: Vec::new() };
        assert(s.spent() =~= Set::<([u8; 32], u32)>::empty());
        s
    }

    /// Records an accepted block; its cumulative work is the parent's plus
    /// its own (`2^min(bits, 127)` for proof of work), saturating.
    pub fn insert_block(&mut self, height: u64, block_hash: [u8; 32], parent_hash: [u8; 32], block_time: u64,
        consensus_data: BlockConsensusData, parent_cumulative_work: u128)
        ensures
            final(self).records() == old(self).records().push(BlockConsensusRecord {
                height,
                block_hash,
                parent_hash,
                block_time,
                consensus_data,
                cumulative_work: if parent_cumulative_work + block_work_spec(consensus_data) > u128::MAX {
                    u128::MAX
                } else {
                    (parent_cumulative_work + block_work_spec(consensus_data)) as u128
                },
            }),
            final(self).spent() == old(self).spent(),
    {
        let work = block_work(&consensus_data);
        let cumulative_work = parent_cumulative_work.saturating_add(work);
        self.records.push(BlockConsensusRecord { height, block_hash, parent_hash, block_time, consensus_data, cumulative_work });
    }

    /// Records that an output's coin age was consumed.
    pub fn mark_coin_age_spent(&mut self, txout_hash: [u8; 32], txout_n: u32)
        ensures
            final(self).spent() == old(self).spent().insert((txout_hash, txout_n)),
            final(self).records() == old(self).records(),
    {
        let ghost before = self.spent_coin_age@;
        self.spent_coin_age.push((txout_hash, txout_n));
        assert forall|e: ([u8; 32], u32)| self.spent_coin_age@.contains(e) <==> before.contains(e) || e == (txout_hash, txout_n) by {
            if self.spent_coin_age@.contains(e) {
                let i = choose|i: int| 0 <= i < self.spent_coin_age@.len() && self.spent_coin_age@[i] == e;
                if i < before.len() {
                    assert(before[i] == e);
                }
            }
            if before.contains(e) {
                let i = choose|i: int| 0 <= i < before.len() && before[i] == e;
                assert(self.spent_coin_age@[i] == e);
            }
            if e == (txout_hash, txout_n) {
                assert(self.spent_coin_age@[before.len() as int] == e);
            }
        }
        assert(before == old(self).spent_coin_age@);
        assert forall|e: ([u8; 32], u32)| #[trigger] self.spent().contains(e) == old(self).spent().insert((txout_hash, txout_n)).contains(e) by {
            assert(self.spent().contains(e) == self.spent_coin_age@.contains(e));
            assert(old(self).spent().contains(e) == before.contains(e));
        }
        assert(self.spent() =~= old(self).spent().insert((txout_hash, txout_n)));
    }

    fn position_at(&self, height: u64) -> (r: Option<usize>)
        ensures
            r is None <==> last_at_height(self.records@, height) < 0,
            r matches Some(i) ==> i == last_at_height(self.records@, height),
    {
        let mut k = self.records.len();
        assert(self.records@.subrange(0, k as int) =~= self.records@);
        while k > 0
            invariant
                0 <= k <= self.records@.len(),
                last_at_height(self.records@, height) == last_at_height(self.records@.subrange(0, k as int), height),
            decreases k,
        {
            let ghost pre = self.records@.subrange(0, k as int);
            assert(pre.drop_last() =~= self.records@.subrange(0, k as int - 1));
            if self.records[k - 1].height == height {
                return Some(k - 1);
            }
            k = k - 1;
        }
        None
    }

    fn position_of(&self, hash: &[u8; 32]) -> (r: Option<usize>)
        ensures
            r is None <==> last_with_hash(self.records@, *hash) < 0,
            r matches Some(i) ==> i == last_with_hash(self.records@, *hash),
    {
        let mut k = self.records.len();
        assert(self.records@.subrange(0, k as int) =~= self.records@);
        while k > 0
            invariant
                0 <= k <= self.records@.len(),
                last_with_hash(self.records@, *hash) == last_with_hash(self.records@.subrange(0, k as int), *hash),
            decreases k,
        {
            let ghost pre = self.records@.subrange(0, k as int);
            assert(pre.drop_last() =~= self.records@.subrange(0, k as int - 1));
            if bytes32_eq(&self.records[k - 1].block_hash, hash) {
                return Some(k - 1);
            }
            k = k - 1;
        }
        None
    }

    /// The record at a height: the last one inserted there.
    pub fn get_by_height(&self, height: u64) -> (r: Option<&BlockConsensusRecord>)
        ensures
            (match r {
                Some(x) => record_at(self.records(), height) == Some(*x),
                None => record_at(self.records(), height) is None,
            }),
    {
        proof {
            lemma_last_at_height_range(self.records@, height);
        }
        match self.position_at(height) {
            Some(i) => Some(&self.records[i]),
            None => None,
        }
    }

    /// The record of a block hash: the last one inserted with it.
    pub fn get_by_hash(&self, hash: &[u8; 32]) -> (r: Option<&BlockConsensusRecord>)
        ensures
            (match r {
                Some(x) => record_of(self.records(), *hash) == Some(*x),
                None => record_of(self.records(), *hash) is None,
            }),
    {
        proof {
            lemma_last_with_hash_range(self.records@, *hash);
        }
        match self.position_of(hash) {
            Some(i) => Some(&self.records[i]),
            None => None,
        }
    }

    /// The highest height recorded; 0 when empty.
    pub fn tip_height(&self) -> (r: u64)
        ensures
            r == max_height(self.records()),
    {
        let mut m: u64 = 0;
        let mut k: usize = 0;
        assert(self.records@.subrange(0, 0) =~= Seq::<BlockConsensusRecord>::empty());
        while k < self.records.len()
            invariant
                0 <= k <= self.records@.len(),
                m == max_height(self.records@.subrange(0, k as int)),
            decreases self.records@.len() - k,
        {
            let ghost pre = self.records@.subrange(0, k as int + 1);
            assert(pre.drop_last() =~= self.records@.subrange(0, k as int));
            if self.records[k].height > m {
                m = self.records[k].height;
            }
            k = k + 1;
        }
        assert(self.records@.subrange(0, self.records@.len() as int) =~= self.records@);
        m
    }

    /// The cumulative work of the record at the highest height; 0 when empty.
    pub fn tip_cumulative_work(&self) -> (r: u128)
        ensures
            r == (match record_at(self.records(), max_height(self.records())) {
                Some(x) => x.cumulative_work,
                None => 0u128,
            }),
    {
        let h = self.tip_height();
        match self.get_by_height(h) {
            Some(rec) => rec.cumulative_work,
            None => 0,
        }
    }

    /// Whether an output's coin age was consumed.
    pub fn is_coin_age_spent(&self, txout_hash: &[u8; 32], txout_n: u32) -> (r: bool)
        ensures
            r == self.spent().contains((*txout_hash, txout_n)),
    {
        let mut k: usize = 0;
        while k < self.spent_coin_age.len()
            invariant
                0 <= k <= self.spent_coin_age@.len(),
                forall|i: int| 0 <= i < k ==> self.spent_coin_age@[i] != (*txout_hash, txout_n),
            decreases self.spent_coin_age@.len() - k,
        {
            let (h, n) = self.spent_coin_age[k];
            if n == txout_n && bytes32_eq(&h, txout_hash) {
                assert(self.spent_coin_age@[k as int] == (*txout_hash, txout_n));
                return true;
            }
            k = k + 1;
        }
        false
    }

    /// The difficulty recorded at a height.
    pub fn difficulty_at(&self, height: u64) -> (r: Option<u32>)
        ensures
            r == (match record_at(self.records(), height) {
                Some(x) => Some(x.consensus_data.difficulty_bits),
                None => None,
            }),
    {
        match self.get_by_height(height) {
            Some(rec) => Some(rec.consensus_data.difficulty_bits),
            None => None,
        }
    }

    /// The timespan of the last `window` proof-of-work blocks below
    /// `tip_height`: the tip's time minus the time of the earliest of them
    /// (saturating). `None` when the tip is unknown or fewer than `window`
    /// proof-of-work blocks lie below it.
    pub fn pow_window_timespan(&self, tip_height: u64, window: u64) -> (r: Option<u64>)
        ensures
            r == (match record_at(self.records(), tip_height) {
                None => None,
                Some(tip) => {
                    let (count, start) = pow_walk(self.records(), tip_height, window, 0, tip.block_time);
                    if count < window {
                        None
                    } else {
                        Some(if tip.block_time >= start { (tip.block_time - start) as u64 } else { 0u64 })
                    }
                },
            }),
    {
        let tip = match self.get_by_height(tip_height) {
            Some(t) => t,
            None => {
                return None;
            },
        };
        let mut pow_count: u64 = 0;
        let mut window_start_time = tip.block_time;
        let mut h = tip_height;
        while pow_count < window && h > 0
            invariant
                pow_count <= window,
                pow_walk(self.records(), tip_height, window, 0, tip.block_time)
                    == pow_walk(self.records(), h, window, pow_count, window_start_time),
            decreases h,
        {
            h = h - 1;
            match self.get_by_height(h) {
                Some(rec) => {
                    if rec.consensus_data.consensus_type == ConsensusType::ProofOfWork {
                        window_start_time = rec.block_time;
                        pow_count = pow_count + 1;
                    }
                },
                None => {},
            }
        }
        if pow_count < window {
            None
        } else {
            Some(tip.block_time.saturating_sub(window_start_time))
        }
    }

    /// The hash of the heavier of two tips by recorded cumulative work (an
    /// unknown tip weighs nothing); the first on a tie.
    pub fn heavier_tip(&self, hash_a: &[u8; 32], hash_b: &[u8; 32]) -> (r: Option<[u8; 32]>)
        ensures
            r == Some(if work_of(self.records(), *hash_a) >= work_of(self.records(), *hash_b) { *hash_a } else { *hash_b }),
    {
        let work_a = match self.get_by_hash(hash_a) {
            Some(rec) => rec.cumulative_work,
            None => 0,
        };
        let work_b = match self.get_by_hash(hash_b) {
            Some(rec) => rec.cumulative_work,
            None => 0,
        };
        if work_a >= work_b { Some(*hash_a) } else { Some(*hash_b) }
    }
}

/// Law: a block just inserted is what its hash and its height look up.
pub proof fn lemma_insert_then_lookup(rs: Seq<BlockConsensusRecord>, rec: BlockConsensusRecord)
    ensures
        record_of(rs.push(rec), rec.block_hash) == Some(rec),
        record_at(rs.push(rec), rec.height) == Some(rec),
{
    let s = rs.push(rec);
    assert(s.last() == rec);
    assert(s.drop_last() =~= rs);
}

/// Law: inserting a block changes no lookup of another hash.
pub proof fn lemma_insert_keeps_other_hashes(rs: Seq<BlockConsensusRecord>, rec: BlockConsensusRecord, hash: [u8; 32])
    requires
        hash != rec.block_hash,
    ensures
        record_of(rs.push(rec), hash) == record_of(rs, hash),
{
    let s = rs.push(rec);
    assert(s.drop_last() =~= rs);
    lemma_last_with_hash_range(rs, hash);
    if last_with_hash(rs, hash) >= 0 {
        assert(s[last_with_hash(rs, hash)] == rs[last_with_hash(rs, hash)]);
    }
}

} // verus!
