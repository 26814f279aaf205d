//! Replay of blocks received from the network, with Nakamoto fork choice:
//! a block that passed consensus validation is kept only when its chain is
//! at least as heavy as the current tip's. The consensus validation itself
//! (proof-of-work hash, stake kernel, timestamps against the genesis
//! configuration) is done before, outside the library, and its verdict is
//! handed in.

use vstd::prelude::*;
use crate::node::consensus_data::{BlockConsensusData, block_work};
use crate::node::block_store::{HybridBlockStore, work_of, tip_work_spec, extended_work};
use crate::node::engine::HybridConsensusEngine;

verus! {

/// Why a received block was refused.
#[derive(Clone, Copy, Debug, PartialEq, Eq, Structural)]
pub enum BlockValidationError {
    /// The block failed proof-of-work checks, or lies on a lighter chain.
    PowHashInvalid { difficulty_bits: u32 },
}

/// A block received from the network, not yet replayed.
#[derive(Debug)]
pub struct PendingBlock {
    pub height: u64,
    pub block_hash: [u8; 32],
    pub parent_hash: [u8; 32],
    pub block_time: u64,
    pub parent_time: u64,
    pub consensus_data: BlockConsensusData,
    pub extra_data: Vec<u8>,
}

/// What the replay stage works with.
#[derive(Debug)]
pub struct ReplayStageConfig {
    pub block_store: HybridBlockStore,
    pub engine: HybridConsensusEngine,
}

/// The work of the chain a pending block would end: its parent's recorded
/// work (zero when the parent is unknown) plus its own, saturating.
pub open spec fn candidate_work_spec(store: HybridBlockStore, pending: PendingBlock) -> u128 {
    extended_work(work_of(store.records(), pending.parent_hash), pending.consensus_data)
}

/// The replay stage.
pub struct ReplayStage;

impl ReplayStage {
    /// Checks a received block: the consensus verdict first (an error is
    /// passed on as it is), then fork choice: the block is refused, as a
    /// proof-of-work failure at its difficulty, when the chain it ends is
    /// lighter than the current tip's.
    pub fn validate_and_apply(config: &ReplayStageConfig, pending: &PendingBlock,
        consensus_verdict: Result<(), BlockValidationError>) -> (r: Result<(), BlockValidationError>)
        ensures
            consensus_verdict is Err ==> r == consensus_verdict,
            consensus_verdict is Ok ==> (r is Ok <==> candidate_work_spec(config.block_store, *pending)
                >= tip_work_spec(config.block_store.records())),
            consensus_verdict is Ok && r is Err ==> r == Err::<(), BlockValidationError>(
                BlockValidationError::PowHashInvalid { difficulty_bits: pending.consensus_data.difficulty_bits }),
    {
        match consensus_verdict {
            Err(e) => {
                return Err(e);
            },
            Ok(()) => {},
        }
        let store = &config.block_store;
        let current_tip_work = store.tip_cumulative_work();
        let parent_work: u128 = match store.get_by_hash(&pending.parent_hash) {
            Some(rec) => rec.cumulative_work,
            None => 0,
        };
        let own = block_work(&pending.consensus_data);
        let candidate_work = parent_work.saturating_add(own);
        if candidate_work < current_tip_work {
            return Err(BlockValidationError::PowHashInvalid { difficulty_bits: pending.consensus_data.difficulty_bits });
        }
        Ok(())
    }
}

} // verus!
