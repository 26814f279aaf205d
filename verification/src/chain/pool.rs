//! The default local mining pool. Miners submit solved proof-of-work
//! blocks; the pool checks the header hash against the advertised
//! difficulty and records the share, or counts the rejection.

use vstd::prelude::*;
use crate::chain::block::{Block, BlockType, header_hash_spec};
use crate::consensus::pow::{meets_difficulty, meets_difficulty_spec, has_nonzero_byte};

verus! {

/// The pool's name.
pub const DEFAULT_POOL_NAME: &'static str = "hybrid-default-pool";

/// An accepted share.
#[derive(Debug, Clone)]
pub struct AcceptedShare {
    pub miner: String,
    pub height: u64,
    pub nonce: u64,
    pub hash: [u8; 32],
}

/// Accepted shares and the count of rejected submissions.
#[derive(Debug)]
pub struct DefaultPool {
    accepted: Vec<AcceptedShare>,
    rejected: u64,
}

/// Why a submission was rejected.
#[derive(Debug, Clone, Copy, PartialEq, Eq)]
pub enum SubmitError {
    WrongBlockType,
    InsufficientWork,
    Serialize,
}

impl DefaultPool {
    /// The shares accepted so far: (height, nonce, hash) in order.
    pub closed spec fn accepted_view(&self) -> Seq<(u64, u64, [u8; 32])> {
        self.accepted@.map_values(|s: AcceptedShare| (s.height, s.nonce, s.hash))
    }

    /// The number of rejected submissions.
    pub closed spec fn rejected_view(&self) -> u64 {
        self.rejected
    }

    /// An empty pool.
    pub fn new() -> (p: Self)
        ensures
            p.accepted_view() == Seq::<(u64, u64, [u8; 32])>::empty(),
            p.rejected_view() == 0,
    {
        let p = DefaultPool { accepted: Vec::new(), rejected: 0 };
        assert(p.accepted_view() =~= Seq::<(u64, u64, [u8; 32])>::empty());
        p
    }

    /// The pool's name.
    pub fn name() -> (r: &'static str)
        ensures
            r@ == DEFAULT_POOL_NAME@,
    {
        DEFAULT_POOL_NAME
    }

    /// Checks a submitted block: it must be proof-of-work and its header hash
    /// must meet the header's difficulty. An accepted share is recorded and
    /// returned; a rejection is counted.
    pub fn submit_block(&mut self, miner: &str, block: &Block) -> (r: Result<AcceptedShare, SubmitError>)
        requires
            block.header.difficulty / 8 <= 32 || has_nonzero_byte(header_hash_spec(block.header)@),
            old(self).rejected_view() < u64::MAX,
        ensures
            block.header.block_type != BlockType::PoW ==> r == Err::<AcceptedShare, SubmitError>(SubmitError::WrongBlockType),
            block.header.block_type == BlockType::PoW
                && !meets_difficulty_spec(header_hash_spec(block.header)@, block.header.difficulty)
                ==> r == Err::<AcceptedShare, SubmitError>(SubmitError::InsufficientWork),
            r is Err ==> final(self).rejected_view() == old(self).rejected_view() + 1
                && final(self).accepted_view() == old(self).accepted_view(),
            r is Ok <==> block.header.block_type == BlockType::PoW
                && meets_difficulty_spec(header_hash_spec(block.header)@, block.header.difficulty),
            r matches Ok(s) ==> s.miner@ == miner@ && s.height == block.header.height && s.nonce == block.header.nonce
                && s.hash == header_hash_spec(block.header)
                && final(self).accepted_view() == old(self).accepted_view().push((s.height, s.nonce, s.hash))
                && final(self).rejected_view() == old(self).rejected_view(),
    {
        if block.header.block_type != BlockType::PoW {
            self.rejected = self.rejected + 1;
            return Err(SubmitError::WrongBlockType);
        }
        let hash = block.header.hash();
        if !meets_difficulty(&hash, block.header.difficulty) {
            self.rejected = self.rejected + 1;
            return Err(SubmitError::InsufficientWork);
        }
        let share = AcceptedShare {
            miner: miner.to_owned(),
            height: block.header.height,
            nonce: block.header.nonce,
            hash,
        };
        let copy = AcceptedShare {
            miner: miner.to_owned(),
            height: share.height,
            nonce: share.nonce,
            hash: share.hash,
        };
        let ghost before = self.accepted@;
        self.accepted.push(copy);
        assert(self.accepted_view() =~= old(self).accepted_view().push((share.height, share.nonce, share.hash)));
        Ok(share)
    }

    /// The number of accepted shares.
    pub fn accepted_count(&self) -> (r: usize)
        ensures
            r == self.accepted_view().len(),
    {
        self.accepted.len()
    }

    /// The number of rejected submissions.
    pub fn rejected_count(&self) -> (r: u64)
        ensures
            r == self.rejected_view(),
    {
        self.rejected
    }
}

} // verus!
