//! The decisions of the mining and minting services. The services
//! themselves (threads, channels, the exit flag, sleeping) run outside the
//! library; each step they take is decided here.

use vstd::prelude::*;
use crate::node::consensus_data::{BlockConsensusData, ConsensusType, ChainTip, sha256d_block_hash, block_preimage,
    pos_kernel_hash, kernel_preimage};
use crate::node::engine::HybridConsensusEngine;
use crate::node::coinbase::{pos_staking_reward, pos_staking_reward_spec};
use crate::consensus::pow::{meets_difficulty, meets_difficulty_spec};
use crate::consensus::pos::{calculate_coin_age, coin_age_spec, stake_weight_spec};
use crate::node::engine::pos_difficulty_spec;
use crate::hash::sha256_spec;
use crate::hash::sha256d_spec;

verus! {

/// A solved proof-of-work block, ready to be assembled.
#[derive(Clone, Copy, Debug)]
pub struct SolvedPowBlock {
    pub height: u64,
    pub parent_hash: [u8; 32],
    pub nonce: u64,
    pub difficulty_bits: u32,
    pub block_time: u64,
    pub coinbase_pubkey: [u8; 32],
    pub consensus_data: BlockConsensusData,
}

/// What a miner does next.
#[derive(Clone, Copy, Debug)]
pub enum MiningStep {
    /// The tip moved: start a new round on it.
    Restart,
    /// Try this nonce next.
    Next(u64),
    /// The nonce solved the block.
    Solved(SolvedPowBlock),
}

/// The first nonce of mining thread `thread_offset`: the threads start an
/// eighth of the nonce space apart (wrapping).
pub fn mining_start_nonce(thread_offset: u64) -> (r: u64)
    ensures
        r == (thread_offset * (u64::MAX / 8)) % 0x1_0000_0000_0000_0000,
{
    let r = thread_offset.wrapping_mul(u64::MAX / 8);
    r
}

/// One step of a mining round begun at `round_tip`: restart when the tip
/// has moved to another height; otherwise the nonce either solves the next
/// block (hash of the tip hash, the next height, the nonce, no extra data)
/// or the next nonce comes up.
pub fn mining_step(round_tip: &ChainTip, current_height: u64, nonce: u64, block_time: u64, coinbase_pubkey: [u8; 32])
    -> (r: MiningStep)
    requires
        round_tip.height < u64::MAX,
        round_tip.difficulty_bits <= 256,
    ensures
        current_height != round_tip.height ==> r is Restart,
        current_height == round_tip.height ==> ({
            let h = sha256d_spec(block_preimage(round_tip.hash, (round_tip.height + 1) as u64, nonce, Seq::empty()));
            if meets_difficulty_spec(h@, round_tip.difficulty_bits) {
                r == MiningStep::Solved(SolvedPowBlock {
                    height: (round_tip.height + 1) as u64,
                    parent_hash: round_tip.hash,
                    nonce,
                    difficulty_bits: round_tip.difficulty_bits,
                    block_time,
                    coinbase_pubkey,
                    consensus_data: BlockConsensusData {
                        consensus_type: ConsensusType::ProofOfWork,
                        nonce,
                        difficulty_bits: round_tip.difficulty_bits,
                        stake_modifier: crate::notes::tree::zero32(),
                        coin_age_consumed: 0,
                    },
                })
            } else {
                r == MiningStep::Next(if nonce == u64::MAX { 0 } else { (nonce + 1) as u64 })
            }
        }),
{
    if current_height != round_tip.height {
        return MiningStep::Restart;
    }
    let height = round_tip.height + 1;
    let empty: [u8; 0] = [];
    let hash = sha256d_block_hash(&round_tip.hash, height, nonce, &empty);
    assert(empty@ =~= Seq::<u8>::empty());
    if meets_difficulty(&hash, round_tip.difficulty_bits) {
        let consensus_data = BlockConsensusData {
            consensus_type: ConsensusType::ProofOfWork,
            nonce,
            difficulty_bits: round_tip.difficulty_bits,
            stake_modifier: [0u8; 32],
            coin_age_consumed: 0,
        };
        return MiningStep::Solved(SolvedPowBlock {
            height,
            parent_hash: round_tip.hash,
            nonce,
            difficulty_bits: round_tip.difficulty_bits,
            block_time,
            coinbase_pubkey,
            consensus_data,
        });
    }
    MiningStep::Next(nonce.wrapping_add(1))
}

/// An output that can stake.
#[derive(Clone, Copy, Debug)]
pub struct StakeUtxo {
    pub owner: [u8; 32],
    pub lamports: u64,
    pub confirmation_time: u64,
    pub txout_hash: [u8; 32],
    pub txout_n: u32,
}

impl StakeUtxo {
    /// Seconds held at `now` (zero before confirmation).
    pub fn held_secs(&self, now: u64) -> (r: u64)
        ensures
            r == (if now >= self.confirmation_time { (now - self.confirmation_time) as u64 } else { 0u64 }),
    {
        now.saturating_sub(self.confirmation_time)
    }
}

/// A minted proof-of-stake block, ready to be assembled.
#[derive(Clone, Copy, Debug)]
pub struct MintedPosBlock {
    pub height: u64,
    pub parent_hash: [u8; 32],
    pub block_time: u64,
    pub staker_pubkey: [u8; 32],
    pub staking_reward: u64,
    pub coin_age_consumed: u64,
    pub consensus_data: BlockConsensusData,
}

/// Seconds an output has been held at `now`.
pub open spec fn held_spec(u: StakeUtxo, now: u64) -> u64 {
    if now >= u.confirmation_time { (now - u.confirmation_time) as u64 } else { 0u64 }
}

/// Whether output `u` mints on `tip` at `now` under the engine: its stake
/// weight is positive and its kernel meets the weight-lowered difficulty.
pub open spec fn utxo_mints(engine: HybridConsensusEngine, tip: ChainTip, u: StakeUtxo, now: u64) -> bool {
    let held = held_spec(u, now);
    let w = stake_weight_spec(u.lamports, held);
    let t = engine.tip_view();
    let d = pos_difficulty_spec(w, t.difficulty_bits, engine.config_view().pos.min_difficulty_bits);
    let kernel = sha256d_spec(kernel_preimage(tip.stake_modifier, u.txout_hash, u.txout_n, now));
    w != 0 && meets_difficulty_spec(kernel@, d)
}

/// The block that output `u` mints on `tip` at `now`.
pub open spec fn minted_spec(engine: HybridConsensusEngine, tip: ChainTip, u: StakeUtxo, now: u64) -> MintedPosBlock {
    let held = held_spec(u, now);
    let kernel = sha256d_spec(kernel_preimage(tip.stake_modifier, u.txout_hash, u.txout_n, now));
    let t = engine.tip_view();
    MintedPosBlock {
        height: (tip.height + 1) as u64,
        parent_hash: tip.hash,
        block_time: now,
        staker_pubkey: u.owner,
        staking_reward: pos_staking_reward_spec(u.lamports, held),
        coin_age_consumed: coin_age_spec(u.lamports, held),
        consensus_data: BlockConsensusData {
            consensus_type: ConsensusType::ProofOfStake,
            nonce: 0,
            difficulty_bits: t.difficulty_bits,
            stake_modifier: sha256_spec(t.stake_modifier@ + kernel@),
            coin_age_consumed: coin_age_spec(u.lamports, held),
        },
    }
}

/// One minting round at `now` on `tip`: the first output, in order, that
/// mints gives the next block; none does, no block.
pub fn minting_round(engine: &HybridConsensusEngine, tip: &ChainTip, utxos: &[StakeUtxo], now: u64)
    -> (r: Option<MintedPosBlock>)
    requires
        tip.height < u64::MAX,
    ensures
        r is None <==> (forall|i: int| 0 <= i < utxos@.len() ==> !#[trigger] utxo_mints(*engine, *tip, utxos@[i], now)),
        r matches Some(b) ==> exists|i: int| 0 <= i < utxos@.len()
            && #[trigger] utxo_mints(*engine, *tip, utxos@[i], now)
            && b == minted_spec(*engine, *tip, utxos@[i], now)
            && (forall|j: int| 0 <= j < i ==> !#[trigger] utxo_mints(*engine, *tip, utxos@[j], now)),
{
    let mut k: usize = 0;
    while k < utxos.len()
        invariant
            0 <= k <= utxos@.len(),
            tip.height < u64::MAX,
            forall|j: int| 0 <= j < k ==> !#[trigger] utxo_mints(*engine, *tip, utxos@[j], now),
        decreases utxos@.len() - k,
    {
        let u = utxos[k];
        let held = u.held_secs(now);
        let coin_age = calculate_coin_age(u.lamports, held);
        let kernel = pos_kernel_hash(&tip.stake_modifier, &u.txout_hash, u.txout_n, now);
        match engine.try_pos_mint(u.lamports, held, coin_age, &kernel) {
            Some(data) => {
                let reward = pos_staking_reward(u.lamports, held);
                let b = MintedPosBlock {
                    height: tip.height + 1,
                    parent_hash: tip.hash,
                    block_time: now,
                    staker_pubkey: u.owner,
                    staking_reward: reward,
                    coin_age_consumed: coin_age,
                    consensus_data: data,
                };
                assert(utxos@[k as int] == u);
                assert(utxo_mints(*engine, *tip, utxos@[k as int], now));
                return Some(b);
            },
            None => {
                assert(utxos@[k as int] == u);
            },
        }
        k = k + 1;
    }
    None
}

} // verus!
