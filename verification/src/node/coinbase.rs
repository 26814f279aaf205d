//! Block rewards of the node: the proof-of-work halving schedule and
//! proof-of-stake interest on coin age.

use vstd::prelude::*;
use crate::consensus::pos::{saturating_mul_spec, saturating_mul_u64};

verus! {

/// Initial block reward in lamports (50 coins).
pub const INITIAL_BLOCK_REWARD_LAMPORTS: u64 = 50_000_000_000;
/// Halve the reward every 210,000 PoW blocks.
pub const HALVING_INTERVAL: u64 = 210_000;
/// Annual PoS interest rate in basis points (100 = 1%).
pub const POS_ANNUAL_RATE_BPS: u64 = 500;
/// Seconds in a year of 365.25 days.
pub const YEAR_SECS: u64 = 31_557_600;

/// The reward at a height: halved every interval, zero after 64 halvings.
pub open spec fn pow_block_reward_spec(height: u64) -> u64 {
    let halvings = height / HALVING_INTERVAL;
    if halvings >= 64 { 0 } else { (INITIAL_BLOCK_REWARD_LAMPORTS >> halvings) as u64 }
}

/// Compute the coinbase reward for a PoW block at the given height.
pub fn pow_block_reward(height: u64) -> (r: u64)
    ensures
        r == pow_block_reward_spec(height),
{
    let halvings = height / HALVING_INTERVAL;
    if halvings >= 64 {
        return 0;
    }
    INITIAL_BLOCK_REWARD_LAMPORTS >> halvings
}

/// Law: the reward never grows as the height grows.
pub proof fn lemma_pow_reward_non_increasing(h1: u64, h2: u64)
    requires
        h1 <= h2,
    ensures
        pow_block_reward_spec(h2) <= pow_block_reward_spec(h1),
{
    let a = h1 / HALVING_INTERVAL;
    let b = h2 / HALVING_INTERVAL;
    assert(h1 / 210_000 <= h2 / 210_000) by (nonlinear_arith) requires h1 <= h2;
    if b < 64 {
        let x = INITIAL_BLOCK_REWARD_LAMPORTS;
        vstd::bits::lemma_u64_shr_is_div(x, a);
        vstd::bits::lemma_u64_shr_is_div(x, b);
        vstd::arithmetic::power2::lemma_pow2_pos(a as nat);
        if a < b {
            vstd::arithmetic::power2::lemma_pow2_strictly_increases(a as nat, b as nat);
        }
        vstd::arithmetic::div_mod::lemma_div_is_ordered_by_denominator(x as int, vstd::arithmetic::power2::pow2(a as nat) as int, vstd::arithmetic::power2::pow2(b as nat) as int);
    }
}

/// The staking reward: `lamports * 500 * held_secs / year / 10_000`, the products saturating.
pub open spec fn pos_staking_reward_spec(lamports: u64, held_secs: u64) -> u64 {
    (saturating_mul_spec(saturating_mul_spec(lamports, POS_ANNUAL_RATE_BPS), held_secs) / YEAR_SECS / 10_000) as u64
}

/// Compute the PoS staking reward for coin age consumed.
pub fn pos_staking_reward(lamports: u64, held_secs: u64) -> (r: u64)
    ensures
        r == pos_staking_reward_spec(lamports, held_secs),
{
    saturating_mul_u64(saturating_mul_u64(lamports, POS_ANNUAL_RATE_BPS), held_secs) / YEAR_SECS / 10_000
}

/// A reward payment: `lamports` from the treasury (the all-zero key) to `to`.
#[derive(Clone, Copy, Debug, PartialEq, Eq)]
pub struct RewardTransfer {
    pub from: [u8; 32],
    pub to: [u8; 32],
    pub lamports: u64,
}

/// The coinbase payment of a proof-of-work block at `height` to `miner`;
/// `None` once the reward has run out.
pub fn build_pow_coinbase(miner: &[u8; 32], height: u64) -> (r: Option<RewardTransfer>)
    ensures
        pow_block_reward_spec(height) == 0 <==> r is None,
        r matches Some(t) ==> t == (RewardTransfer { from: crate::notes::tree::zero32(), to: *miner,
            lamports: pow_block_reward_spec(height) }),
{
    let reward = pow_block_reward(height);
    if reward == 0 {
        return None;
    }
    Some(RewardTransfer { from: [0u8; 32], to: *miner, lamports: reward })
}

/// The staking payment for `lamports` held `held_secs` to `staker`; `None`
/// when it rounds to nothing.
pub fn build_pos_reward(staker: &[u8; 32], lamports: u64, held_secs: u64) -> (r: Option<RewardTransfer>)
    ensures
        pos_staking_reward_spec(lamports, held_secs) == 0 <==> r is None,
        r matches Some(t) ==> t == (RewardTransfer { from: crate::notes::tree::zero32(), to: *staker,
            lamports: pos_staking_reward_spec(lamports, held_secs) }),
{
    let reward = pos_staking_reward(lamports, held_secs);
    if reward == 0 {
        return None;
    }
    Some(RewardTransfer { from: [0u8; 32], to: *staker, lamports: reward })
}

} // verus!
