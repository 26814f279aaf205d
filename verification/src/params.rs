use vstd::prelude::*;

verus! {

/// Name of the chain.
pub const CHAIN_NAME: &'static str = "HybridChain";
/// Ticker of the native coin.
pub const TICKER: &'static str = "HYB";
/// Maximum number of whole coins.
pub const MAX_SUPPLY: u64 = 21_000_000;
/// Reward of a proof-of-work block before any halving, in base units.
pub const POW_BLOCK_REWARD: u64 = 50_0000_0000;
/// Minimum stake, in base units.
pub const MIN_STAKE: u64 = 100_0000_0000;
/// Target seconds between proof-of-work blocks.
pub const POW_TARGET_BLOCK_TIME: u64 = 120;
/// Target seconds between proof-of-stake blocks.
pub const POS_TARGET_BLOCK_TIME: u64 = 60;
/// Number of blocks between difficulty retargets.
pub const DIFFICULTY_ADJUSTMENT_WINDOW: u64 = 2016;
/// Blocks before a proof-of-work reward is spendable.
pub const COIN_MATURITY: u64 = 100;
/// Minimum coin age, in seconds, before coins may stake.
pub const POS_COIN_AGE_MIN: u64 = 86400;
/// Cap on the coin age, in seconds, that accumulates.
pub const POS_COIN_AGE_MAX: u64 = 7776000;
/// Difficulty of the genesis window, in leading zero bits.
pub const INITIAL_DIFFICULTY: u32 = 20;
/// Timestamp of the genesis block.
pub const GENESIS_TIMESTAMP: i64 = 1748996400;
/// Message carried by the genesis block.
pub const GENESIS_MESSAGE: &'static str = "HybridChain genesis - SHA256d PoW/PoS hybrid blockchain";
/// Blocks between reward halvings.
pub const HALVING_INTERVAL: u64 = 210_000;

} // verus!
