//! Answers of the consensus queries: the chain tip and the consensus data
//! of one block, hashes and work given as text.

use vstd::prelude::*;

verus! {

/// The answer to `getChainTip`.
#[derive(Clone, Debug)]
pub struct ChainTipResponse {
    pub height: u64,
    pub hash: String,
    /// The cumulative work, in hex.
    pub cumulative_work: String,
    pub difficulty_bits: u32,
    pub last_block_time: u64,
    pub last_consensus_type: String,
}

/// The answer to `getBlockConsensusInfo`.
#[derive(Clone, Debug)]
pub struct BlockConsensusInfoResponse {
    pub height: u64,
    pub hash: String,
    pub parent_hash: String,
    pub block_time: u64,
    pub consensus_type: String,
    pub nonce: u64,
    pub difficulty_bits: u32,
    pub coin_age_consumed: u64,
    pub cumulative_work: String,
}

} // verus!
