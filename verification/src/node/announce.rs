//! Block announcements gossiped between peers, and the best tip each peer
//! has announced.

use vstd::prelude::*;
use crate::node::consensus_data::ConsensusType;
use crate::bytes::bytes32_eq;

verus! {

/// A peer's announcement of a block.
#[derive(Clone, Copy, Debug)]
pub struct BlockAnnouncement {
    pub height: u64,
    pub block_hash: [u8; 32],
    pub parent_hash: [u8; 32],
    pub block_time: u64,
    pub consensus_type: ConsensusType,
    pub difficulty_bits: u32,
    pub producer: [u8; 32],
    pub cumulative_work: u128,
}

/// `a` beats `b`: more cumulative work, or as much and a greater height.
pub open spec fn better_spec(a: BlockAnnouncement, b: BlockAnnouncement) -> bool {
    a.cumulative_work > b.cumulative_work || (a.cumulative_work == b.cumulative_work && a.height > b.height)
}

/// Law: fork choice follows the heaviest cumulative work, whatever the
/// heights: more work always wins, less work never does, and only equal work
/// falls back to the greater height.
pub proof fn lemma_better_is_heaviest_work(a: BlockAnnouncement, b: BlockAnnouncement)
    ensures
        a.cumulative_work > b.cumulative_work ==> better_spec(a, b),
        a.cumulative_work < b.cumulative_work ==> !better_spec(a, b),
        a.cumulative_work == b.cumulative_work ==> (better_spec(a, b) <==> a.height > b.height),
        !(better_spec(a, b) && better_spec(b, a)),
{
}

impl BlockAnnouncement {
    /// The announcement of a proof-of-work block.
    pub fn new_pow(height: u64, block_hash: [u8; 32], parent_hash: [u8; 32], block_time: u64, difficulty_bits: u32,
        producer: [u8; 32], cumulative_work: u128) -> (a: Self)
        ensures
            a == (BlockAnnouncement { height, block_hash, parent_hash, block_time, consensus_type: ConsensusType::ProofOfWork,
                difficulty_bits, producer, cumulative_work }),
    {
        BlockAnnouncement { height, block_hash, parent_hash, block_time, consensus_type: ConsensusType::ProofOfWork,
            difficulty_bits, producer, cumulative_work }
    }

    /// The announcement of a proof-of-stake block (difficulty 0).
    pub fn new_pos(height: u64, block_hash: [u8; 32], parent_hash: [u8; 32], block_time: u64, producer: [u8; 32],
        cumulative_work: u128) -> (a: Self)
        ensures
            a == (BlockAnnouncement { height, block_hash, parent_hash, block_time, consensus_type: ConsensusType::ProofOfStake,
                difficulty_bits: 0, producer, cumulative_work }),
    {
        BlockAnnouncement { height, block_hash, parent_hash, block_time, consensus_type: ConsensusType::ProofOfStake,
            difficulty_bits: 0, producer, cumulative_work }
    }

    /// Whether this announcement beats `other`.
    pub fn is_better_than(&self, other: &Self) -> (r: bool)
        ensures
            r == better_spec(*self, *other),
            self.cumulative_work > other.cumulative_work ==> r,
            self.cumulative_work < other.cumulative_work ==> !r,
    {
        self.cumulative_work > other.cumulative_work
            || (self.cumulative_work == other.cumulative_work && self.height > other.height)
    }
}

/// The best tip each peer announced.
#[derive(Debug)]
pub struct PeerTipRegistry {
    tips: Vec<([u8; 32], BlockAnnouncement)>,
}

/// No peer appears twice.
pub open spec fn peers_distinct(t: Seq<([u8; 32], BlockAnnouncement)>) -> bool {
    forall|i: int, j: int| 0 <= i < j < t.len() ==> t[i].0 != t[j].0
}

/// The position of a peer's entry, or -1.
pub open spec fn peer_index(t: Seq<([u8; 32], BlockAnnouncement)>, peer: [u8; 32]) -> int
    decreases t.len(),
{
    if t.len() == 0 {
        -1
    } else if t.last().0 == peer {
        t.len() - 1
    } else {
        peer_index(t.drop_last(), peer)
    }
}

proof fn lemma_peer_index(t: Seq<([u8; 32], BlockAnnouncement)>, peer: [u8; 32])
    ensures
        -1 <= peer_index(t, peer) < t.len(),
        peer_index(t, peer) >= 0 ==> t[peer_index(t, peer)].0 == peer,
        peer_index(t, peer) < 0 ==> forall|i: int| 0 <= i < t.len() ==> t[i].0 != peer,
    decreases t.len(),
{
    if t.len() > 0 {
        lemma_peer_index(t.drop_last(), peer);
        if t.last().0 != peer {
            assert forall|i: int| 0 <= i < t.len() - 1 implies t[i] == t.drop_last()[i] by {}
        }
    }
}

impl PeerTipRegistry {
    #[verifier::type_invariant]
    spec fn wf(self) -> bool {
        peers_distinct(self.tips@)
    }

    /// Each peer with its tip, in the order peers first announced.
    pub closed spec fn tips_view(&self) -> Seq<([u8; 32], BlockAnnouncement)> {
        self.tips@
    }

    /// No peer yet.
    pub fn new() -> (r: Self)
        ensures
            r.tips_view() == Seq::<([u8; 32], BlockAnnouncement)>::empty(),
    {
        PeerTipRegistry { tips: Vec::new() }
    }

    /// Records a peer's announcement when the peer had none or it beats the
    /// peer's current tip; says whether it was recorded.
    pub fn update(&mut self, peer: [u8; 32], announcement: BlockAnnouncement) -> (r: bool)
        ensures
            ({
                let t = old(self).tips_view();
                let i = peer_index(t, peer);
                &&& r == (i < 0 || better_spec(announcement, t[i].1))
                &&& (i >= 0 && announcement.cumulative_work > t[i].1.cumulative_work ==> r)
                &&& (i >= 0 && announcement.cumulative_work < t[i].1.cumulative_work ==> !r)
                &&& (r && i >= 0 ==> final(self).tips_view() == t.update(i, (peer, announcement)))
                &&& (r && i < 0 ==> final(self).tips_view() == t.push((peer, announcement)))
                &&& (!r ==> final(self).tips_view() == t)
            }),
    {
        proof {
            use_type_invariant(&*self);
            lemma_peer_index(self.tips@, peer);
        }
        let ghost t = self.tips@;
        let mut k: usize = self.tips.len();
        assert(t.subrange(0, k as int) =~= t);
        while k > 0
            invariant
                0 <= k <= t.len(),
                self.tips@ == t,
                t == old(self).tips@,
                peers_distinct(t),
                peer_index(t, peer) == peer_index(t.subrange(0, k as int), peer),
            decreases k,
        {
            let ghost pre = t.subrange(0, k as int);
            assert(pre.drop_last() =~= t.subrange(0, k as int - 1));
            assert(pre.last() == t[k - 1]);
            if bytes32_eq(&self.tips[k - 1].0, &peer) {
                let i = k - 1;
                assert(peer_index(t, peer) == i);
                let better = announcement.is_better_than(&self.tips[i].1);
                if better {
                    let mut tips: Vec<([u8; 32], BlockAnnouncement)> = Vec::new();
                    std::mem::swap(&mut tips, &mut self.tips);
                    tips.set(i, (peer, announcement));
                    proof {
                        let n = tips@;
                        assert forall|a: int, b: int| 0 <= a < b < n.len() implies n[a].0 != n[b].0 by {
                            assert(n[a].0 == t[a].0 && n[b].0 == t[b].0);
                        }
                    }
                    self.tips = tips;
                }
                return better;
            }
            k = k - 1;
        }
        assert(t.subrange(0, 0) =~= Seq::<([u8; 32], BlockAnnouncement)>::empty());
        let mut tips: Vec<([u8; 32], BlockAnnouncement)> = Vec::new();
        std::mem::swap(&mut tips, &mut self.tips);
        tips.push((peer, announcement));
        proof {
            let n = tips@;
            assert forall|a: int, b: int| 0 <= a < b < n.len() implies n[a].0 != n[b].0 by {
                if b < t.len() {
                    assert(n[a].0 == t[a].0 && n[b].0 == t[b].0);
                } else {
                    assert(n[a].0 == t[a].0);
                }
            }
        }
        self.tips = tips;
        true
    }

    /// A tip with the most cumulative work among the peers' tips (the first
    /// such in the list); `None` when no peer announced anything.
    pub fn best_tip(&self) -> (r: Option<&BlockAnnouncement>)
        ensures
            r is None <==> self.tips_view().len() == 0,
            r matches Some(a) ==> (exists|i: int| 0 <= i < self.tips_view().len() && self.tips_view()[i].1 == *a)
                && forall|i: int| 0 <= i < self.tips_view().len() ==> (#[trigger] self.tips_view()[i]).1.cumulative_work <= a.cumulative_work,
    {
        if self.tips.len() == 0 {
            return None;
        }
        let mut best: usize = 0;
        let mut k: usize = 1;
        while k < self.tips.len()
            invariant
                1 <= k <= self.tips@.len(),
                best < k,
                forall|i: int| 0 <= i < k ==> (#[trigger] self.tips@[i]).1.cumulative_work <= self.tips@[best as int].1.cumulative_work,
            decreases self.tips@.len() - k,
        {
            if self.tips[k].1.cumulative_work > self.tips[best].1.cumulative_work {
                best = k;
            }
            k = k + 1;
        }
        Some(&self.tips[best].1)
    }

    /// The number of peers with a tip.
    pub fn peer_count(&self) -> (r: usize)
        ensures
            r == self.tips_view().len(),
    {
        self.tips.len()
    }
}

} // verus!
