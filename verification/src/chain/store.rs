//! Chain snapshots: what is persisted of a chain, and the checks a loaded
//! snapshot must pass before its note state is rebuilt.

use vstd::prelude::*;
use crate::chain::block::{Block, BlockType, header_hash_spec, bundles_root_spec, block_equiv, blocks_equiv};
use crate::chain::blockchain::{Blockchain, replay_spec, replay_blocks, NotesView, apply_matches, chain_reward_spec,
    output_cms_spec, lemma_block_equiv_apply, lemma_bundle_equiv_apply};
use crate::notes::action::{ActionBundle, is_emission_spec, bundle_equiv};
use crate::notes::spend_proof::emission_verify_spec;
use crate::params::{POW_BLOCK_REWARD, HALVING_INTERVAL};
use crate::notes::tree::{NoteCommitmentTree, zero32};
use crate::notes::launch::LaunchSet;
use crate::notes::tags::SpendTagSet;
use crate::notes::action::bundle_bytes;
use crate::consensus::pow::{meets_difficulty, meets_difficulty_spec};
use crate::bytes::bytes32_eq;

verus! {

/// What is persisted of a chain.
#[derive(Debug)]
pub struct ChainSnapshot {
    pub blocks: Vec<Block>,
    pub current_difficulty: u32,
    pub total_supply: u64,
}

/// Why a snapshot could not be stored or loaded.
#[derive(Debug)]
pub enum StoreError {
    Io(String),
    Decode(String),
    Invalid(String),
}

/// `format!("{msg} at {at}")`: the message with the block position.
/// Nothing is stated of the text.
#[verifier::external_body]
fn invalid_at(msg: &str, at: usize) -> (e: StoreError)
    ensures
        e is Invalid,
{
    StoreError::Invalid(format!("{} at {}", msg, at))
}

fn invalid(msg: &str) -> (e: StoreError)
    ensures
        e matches StoreError::Invalid(m) && m@ == msg@,
{
    StoreError::Invalid(msg.to_owned())
}

/// Whether a bundle pays `reward`: an emission must carry an OR proof, with
/// a challenge and a response per output, that one of its output
/// commitments opens to `reward`; any other bundle pays nothing to check.
pub open spec fn emission_pays(b: ActionBundle, reward: u64) -> bool {
    is_emission_spec(b.actions@) ==> (b.emission matches Some(e)
        && e.e@.len() >= output_cms_spec(b.actions@).len()
        && e.z@.len() >= output_cms_spec(b.actions@).len()
        && emission_verify_spec(e, output_cms_spec(b.actions@), reward))
}

/// Whether block `i` sits where it claims: its height is its position, its
/// Merkle root commits to its bundles, it links to its parent (the genesis
/// to nothing), a proof-of-work block after the genesis meets its
/// difficulty, and every emission of a proof-of-work block opens to the
/// scheduled reward of its height. A proof-of-stake reward depends on the
/// hidden stake, so no schedule applies to it.
pub open spec fn block_linked(blocks: Seq<Block>, i: int) -> bool {
    let h = blocks[i].header;
    &&& h.height == i
    &&& h.merkle_root == bundles_root_spec(blocks[i].compact@)
    &&& (if i == 0 { h.prev_hash == zero32() } else { h.prev_hash == header_hash_spec(blocks[i - 1].header) })
    &&& (h.block_type == BlockType::PoW && i > 0 ==> meets_difficulty_spec(header_hash_spec(h)@, h.difficulty))
    &&& (h.block_type == BlockType::PoW ==> forall|j: int| 0 <= j < blocks[i].compact@.len()
            ==> #[trigger] emission_pays(blocks[i].compact@[j], chain_reward_spec(i as u64)))
}

/// The scheduled reward of a proof-of-work block at a height.
fn pow_reward_at_height(height: u64) -> (r: u64)
    ensures
        r == chain_reward_spec(height),
{
    let halvings = height / HALVING_INTERVAL;
    if halvings >= 64 {
        return 0;
    }
    let full: u64 = POW_BLOCK_REWARD;
    assert((full >> halvings) <= full) by (bit_vector);
    full >> halvings
}

/// Checks that a bundle pays `reward`; see `emission_pays`.
fn check_emission_pays(b: &ActionBundle, reward: u64) -> (r: bool)
    ensures
        r == emission_pays(*b, reward),
{
    if !b.is_emission() {
        return true;
    }
    match &b.emission {
        None => false,
        Some(e) => {
            let cms = b.output_commitments();
            assert(cms@ =~= output_cms_spec(b.actions@));
            if e.e.len() < cms.len() || e.z.len() < cms.len() {
                return false;
            }
            e.verify(cms.as_slice(), reward)
        },
    }
}

/// What `revalidate` accepts: a non-empty chain whose blocks are all linked
/// and whose bundles and header roots replay from an empty note state.
pub open spec fn revalidate_spec(blocks: Seq<Block>) -> bool {
    &&& blocks.len() > 0
    &&& forall|i: int| 0 <= i < blocks.len() ==> #[trigger] block_linked(blocks, i)
    &&& replay_spec(blocks) is Ok
}

proof fn lemma_emission_pays_equiv(b1: ActionBundle, b2: ActionBundle, reward: u64)
    requires
        bundle_equiv(b1, b2),
    ensures
        emission_pays(b1, reward) == emission_pays(b2, reward),
{
    lemma_bundle_equiv_apply(crate::chain::blockchain::empty_notes_view(), crate::chain::blockchain::empty_notes_view().launch,
        b1, b2, false);
    let cms = output_cms_spec(b1.actions@);
    if b1.emission is Some {
        let x = b1.emission.unwrap();
        let y = b2.emission.unwrap();
        assert(x.a@ == y.a@ && x.e@ == y.e@ && x.z@ == y.z@);
        let t = crate::notes::spend_proof::emission_target_spec(reward);
        assert forall|j: int| 0 <= j < cms.len() implies
            #[trigger] crate::notes::spend_proof::branch_ok(x, cms, t, j)
                == crate::notes::spend_proof::branch_ok(y, cms, t, j) by {
        }
        assert(crate::notes::spend_proof::sum_scalars(x.e@, cms.len()) == crate::notes::spend_proof::sum_scalars(y.e@, cms.len()));
        if emission_verify_spec(x, cms, reward) {
            assert forall|j: int| 0 <= j < cms.len() implies #[trigger] crate::notes::spend_proof::branch_ok(y, cms, t, j) by {
                assert(crate::notes::spend_proof::branch_ok(x, cms, t, j));
            }
        }
        if emission_verify_spec(y, cms, reward) {
            assert forall|j: int| 0 <= j < cms.len() implies #[trigger] crate::notes::spend_proof::branch_ok(x, cms, t, j) by {
                assert(crate::notes::spend_proof::branch_ok(y, cms, t, j));
            }
        }
        assert(emission_verify_spec(x, cms, reward) == emission_verify_spec(y, cms, reward));
    }
}

proof fn lemma_block_linked_equiv(b1: Seq<Block>, b2: Seq<Block>, i: int)
    requires
        blocks_equiv(b1, b2),
        0 <= i < b1.len(),
    ensures
        block_linked(b1, i) == block_linked(b2, i),
{
    assert(block_equiv(b1[i], b2[i]));
    if i > 0 {
        assert(block_equiv(b1[i - 1], b2[i - 1]));
    }
    lemma_block_equiv_apply(crate::chain::blockchain::empty_notes_view(), b1[i], b2[i]);
    assert forall|j: int| 0 <= j < b1[i].compact@.len() implies
        #[trigger] emission_pays(b1[i].compact@[j], chain_reward_spec(i as u64))
            == emission_pays(b2[i].compact@[j], chain_reward_spec(i as u64)) by {
        lemma_emission_pays_equiv(b1[i].compact@[j], b2[i].compact@[j], chain_reward_spec(i as u64));
    }
    if b1[i].header.block_type == BlockType::PoW {
        if forall|j: int| 0 <= j < b1[i].compact@.len() ==> #[trigger] emission_pays(b1[i].compact@[j], chain_reward_spec(i as u64)) {
            assert forall|j: int| 0 <= j < b2[i].compact@.len() implies
                #[trigger] emission_pays(b2[i].compact@[j], chain_reward_spec(i as u64)) by {
                assert(emission_pays(b1[i].compact@[j], chain_reward_spec(i as u64)));
            }
        }
        if forall|j: int| 0 <= j < b2[i].compact@.len() ==> #[trigger] emission_pays(b2[i].compact@[j], chain_reward_spec(i as u64)) {
            assert forall|j: int| 0 <= j < b1[i].compact@.len() implies
                #[trigger] emission_pays(b1[i].compact@[j], chain_reward_spec(i as u64)) by {
                assert(emission_pays(b2[i].compact@[j], chain_reward_spec(i as u64)));
            }
        }
    }
}

proof fn lemma_replay_equiv(b1: Seq<Block>, b2: Seq<Block>)
    requires
        blocks_equiv(b1, b2),
    ensures
        replay_spec(b1) == replay_spec(b2),
    decreases b1.len(),
{
    if b1.len() > 0 {
        let d1 = b1.drop_last();
        let d2 = b2.drop_last();
        assert(blocks_equiv(d1, d2)) by {
            assert forall|i: int| 0 <= i < d1.len() implies #[trigger] block_equiv(d1[i], d2[i]) by {
                assert(block_equiv(b1[i], b2[i]));
            }
        }
        lemma_replay_equiv(d1, d2);
        assert(block_equiv(b1[b1.len() - 1], b2[b2.len() - 1]));
        if let Ok(st) = replay_spec(d1) {
            lemma_block_equiv_apply(st, b1.last(), b2.last());
        }
    }
}

/// Law: block lists that agree block by block (as a snapshot agrees with
/// its chain) are accepted or refused alike by `revalidate`, and replay to
/// the same note state.
pub proof fn lemma_revalidate_equiv(b1: Seq<Block>, b2: Seq<Block>)
    requires
        blocks_equiv(b1, b2),
    ensures
        revalidate_spec(b1) == revalidate_spec(b2),
        replay_spec(b1) == replay_spec(b2),
{
    lemma_replay_equiv(b1, b2);
    assert forall|i: int| 0 <= i < b1.len() implies #[trigger] block_linked(b1, i) == block_linked(b2, i) by {
        lemma_block_linked_equiv(b1, b2, i);
    }
    if forall|i: int| 0 <= i < b1.len() ==> #[trigger] block_linked(b1, i) {
        assert forall|i: int| 0 <= i < b2.len() implies #[trigger] block_linked(b2, i) by {
            assert(block_linked(b1, i));
        }
    }
    if forall|i: int| 0 <= i < b2.len() ==> #[trigger] block_linked(b2, i) {
        assert forall|i: int| 0 <= i < b1.len() implies #[trigger] block_linked(b1, i) by {
            assert(block_linked(b2, i));
        }
    }
}

impl Blockchain {
    /// A chain from a loaded snapshot: it must hold blocks and pass
    /// `revalidate`, and its note state is then rebuilt from the blocks.
    pub fn from_snapshot(snap: ChainSnapshot) -> (r: Result<Blockchain, StoreError>)
        ensures
            snap.blocks@.len() == 0 ==> r is Err,
            r is Ok <==> revalidate_spec(snap.blocks@),
            r matches Ok(c) ==> c.blocks@ == snap.blocks@ && c.synced() && c.indexed()
                && c.current_difficulty == snap.current_difficulty && c.total_supply == snap.total_supply,
    {
        if snap.blocks.len() == 0 {
            return Err(invalid("empty snapshot"));
        }
        let mut block_index: Vec<[u8; 32]> = Vec::new();
        let mut k: usize = 0;
        while k < snap.blocks.len()
            invariant
                0 <= k <= snap.blocks@.len(),
                block_index@.len() == k,
                forall|i: int| 0 <= i < k ==> #[trigger] block_index@[i] == header_hash_spec(snap.blocks@[i].header),
            decreases snap.blocks@.len() - k,
        {
            block_index.push(snap.blocks[k].hash());
            k = k + 1;
        }
        let mut chain = Blockchain {
            blocks: snap.blocks,
            block_index,
            current_difficulty: snap.current_difficulty,
            total_supply: snap.total_supply,
            notes: NoteCommitmentTree::new(),
            launch: LaunchSet::standard(),
            tags: SpendTagSet::new(),
        };
        let v = chain.revalidate();
        if v.is_err() {
            return match v {
                Err(e) => Err(e),
                Ok(_) => Err(invalid("empty snapshot")),
            };
        }
        let rb = chain.rebuild_notes();
        match rb {
            Err(e) => Err(invalid(e)),
            Ok(_) => Ok(chain),
        }
    }

    /// The persisted part of the chain.
    pub fn snapshot(&self) -> (s: ChainSnapshot)
        ensures
            s.blocks@.len() == self.blocks@.len(),
            blocks_equiv(s.blocks@, self.blocks@),
            forall|i: int| 0 <= i < s.blocks@.len() ==> (#[trigger] s.blocks@[i]).header == self.blocks@[i].header
                && s.blocks@[i].compact@.len() == self.blocks@[i].compact@.len(),
            forall|i: int, j: int| 0 <= i < s.blocks@.len() && 0 <= j < s.blocks@[i].compact@.len()
                ==> bundle_bytes(#[trigger] s.blocks@[i].compact@[j]) == bundle_bytes(self.blocks@[i].compact@[j]),
            s.current_difficulty == self.current_difficulty,
            s.total_supply == self.total_supply,
    {
        let mut blocks: Vec<Block> = Vec::new();
        let mut k: usize = 0;
        while k < self.blocks.len()
            invariant
                0 <= k <= self.blocks@.len(),
                blocks@.len() == k,
                forall|i: int| 0 <= i < k ==> (#[trigger] blocks@[i]).header == self.blocks@[i].header
                    && blocks@[i].compact@.len() == self.blocks@[i].compact@.len(),
                forall|i: int, j: int| 0 <= i < k && 0 <= j < blocks@[i].compact@.len()
                    ==> bundle_bytes(#[trigger] blocks@[i].compact@[j]) == bundle_bytes(self.blocks@[i].compact@[j]),
                forall|i: int| 0 <= i < k ==> #[trigger] block_equiv(blocks@[i], self.blocks@[i]),
            decreases self.blocks@.len() - k,
        {
            blocks.push(self.blocks[k].clone());
            k = k + 1;
        }
        ChainSnapshot { blocks, current_difficulty: self.current_difficulty, total_supply: self.total_supply }
    }

    /// Checks a chain from its blocks alone; see `revalidate_spec`.
    pub fn revalidate(&self) -> (r: Result<(), StoreError>)
        ensures
            r is Ok <==> revalidate_spec(self.blocks@),
            r matches Err(e) ==> e is Invalid,
    {
        if self.blocks.len() == 0 {
            return Err(invalid("empty chain"));
        }
        let mut i: usize = 0;
        while i < self.blocks.len()
            invariant
                0 <= i <= self.blocks@.len(),
                forall|j: int| 0 <= j < i ==> #[trigger] block_linked(self.blocks@, j),
            decreases self.blocks@.len() - i,
        {
            let blk = &self.blocks[i];
            if blk.header.height != i as u64 {
                assert(!block_linked(self.blocks@, i as int));
                return Err(invalid_at("height mismatch", i));
            }
            let root = Block::compute_merkle_root(blk.compact.as_slice());
            if !bytes32_eq(&root, &blk.header.merkle_root) {
                assert(!block_linked(self.blocks@, i as int));
                return Err(invalid_at("compact merkle mismatch", i));
            }
            if i == 0 {
                let z = [0u8; 32];
                if !bytes32_eq(&blk.header.prev_hash, &z) {
                    assert(!block_linked(self.blocks@, i as int));
                return Err(invalid("bad genesis prev"));
                }
            } else {
                let parent = self.blocks[i - 1].hash();
                if !bytes32_eq(&blk.header.prev_hash, &parent) {
                    assert(!block_linked(self.blocks@, i as int));
                return Err(invalid_at("bad parent", i));
                }
            }
            if blk.header.block_type == BlockType::PoW {
                let reward = pow_reward_at_height(i as u64);
                let mut j: usize = 0;
                while j < blk.compact.len()
                    invariant
                        0 <= j <= blk.compact@.len(),
                        0 <= i < self.blocks@.len(),
                        *blk == self.blocks@[i as int],
                        blk.header.block_type == BlockType::PoW,
                        reward == chain_reward_spec(i as u64),
                        forall|k: int| 0 <= k < j ==> #[trigger] emission_pays(blk.compact@[k], reward),
                    decreases blk.compact@.len() - j,
                {
                    if !check_emission_pays(&blk.compact[j], reward) {
                        assert(self.blocks@[i as int] == *blk);
                        assert(!block_linked(self.blocks@, i as int));
                        return Err(invalid_at("emission off the reward schedule", i));
                    }
                    j = j + 1;
                }
                assert(self.blocks@[i as int] == *blk);
            }
            if blk.header.block_type == BlockType::PoW && i > 0 {
                assert(self.blocks@[i as int] == *blk);
                if blk.header.difficulty / 8 > 32 {
                    assert(!block_linked(self.blocks@, i as int));
                    return Err(invalid_at("weak work", i));
                }
                let h = blk.hash();
                if !meets_difficulty(&h, blk.header.difficulty) {
                    assert(!block_linked(self.blocks@, i as int));
                    return Err(invalid_at("weak work", i));
                }
            }
            i = i + 1;
        }
        match replay_blocks(&self.blocks) {
            Err(e) => Err(invalid(e)),
            Ok(_) => Ok(()),
        }
    }
}

} // verus!
