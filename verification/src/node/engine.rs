//! The node's hybrid consensus engine: it mines and checks proof-of-work,
//! mints proof-of-stake, and moves the chain tip (cumulative work, stake
//! modifier, difficulty retargeting) as blocks are accepted.

use vstd::prelude::*;
use crate::node::consensus_data::{BlockConsensusData, ConsensusType, ChainTip, block_work, block_work_spec,
    sha256d_block_hash, block_preimage, compute_stake_modifier, leading_zeros_from_weight,
    leading_zeros_from_weight_spec, bit_length};
use crate::consensus::pow::{meets_difficulty, meets_difficulty_spec};
use crate::consensus::pos::{stake_weight, stake_weight_spec};
use crate::consensus::difficulty::{retarget, retarget_spec, retarget_inputs_ok, MAX_RETARGET_DIFFICULTY};
use crate::hash::{sha256d_spec, sha256_spec};

verus! {

/// Proof-of-work parameters.
#[derive(Clone, Copy, Debug)]
pub struct PowConfig {
    pub initial_difficulty_bits: u32,
    pub difficulty_adjustment_window: u64,
    pub target_block_time: u64,
}

/// Proof-of-stake parameters.
#[derive(Clone, Copy, Debug)]
pub struct PosConfig {
    pub min_difficulty_bits: u32,
}

/// Both sets of parameters.
#[derive(Clone, Copy, Debug)]
pub struct HybridConsensusConfig {
    pub pow: PowConfig,
    pub pos: PosConfig,
}

impl PowConfig {
    /// The target timespan of a window: its length times the block time.
    pub open spec fn timespan_spec(&self) -> int {
        self.difficulty_adjustment_window * self.target_block_time
    }

    /// The target timespan of a window.
    pub fn target_window_timespan(&self) -> (r: u64)
        requires
            self.timespan_spec() <= u64::MAX,
        ensures
            r == self.timespan_spec(),
    {
        self.difficulty_adjustment_window * self.target_block_time
    }
}

impl HybridConsensusConfig {
    /// Parameters the engine can run with: a window, a target time, and
    /// difficulties that fit in a hash; retargeting computes without overflow.
    pub open spec fn valid(&self) -> bool {
        &&& self.pow.difficulty_adjustment_window > 0
        &&& self.pow.target_block_time > 0
        &&& self.pow.timespan_spec() * 4000 <= u64::MAX
        &&& self.pow.initial_difficulty_bits <= 256
        &&& self.pos.min_difficulty_bits <= 256
    }

    /// Twenty bits, windows of 2016 blocks of 120 seconds, and a stake floor of 8 bits.
    pub fn standard() -> (c: Self)
        ensures
            c.valid(),
            c.pow.initial_difficulty_bits == 20,
            c.pow.difficulty_adjustment_window == 2016,
            c.pow.target_block_time == 120,
            c.pos.min_difficulty_bits == 8,
    {
        HybridConsensusConfig {
            pow: PowConfig { initial_difficulty_bits: 20, difficulty_adjustment_window: 2016, target_block_time: 120 },
            pos: PosConfig { min_difficulty_bits: 8 },
        }
    }
}

/// Why a block was refused.
#[derive(Clone, Copy, Debug, PartialEq, Eq)]
pub enum ConsensusError {
    InsufficientWork,
    InvalidDifficulty { expected: u32, found: u32 },
    InsufficientStake,
}

/// Mining settings.
#[derive(Clone, Copy, Debug)]
pub struct MinerConfig {
    pub coinbase_pubkey: [u8; 32],
    pub mining_threads: usize,
    pub staking_threads: usize,
}

impl Default for MinerConfig {
    /// An all-zero payout key and one thread of each kind.
    fn default() -> (c: Self)
        ensures
            c.coinbase_pubkey == crate::notes::tree::zero32(),
            c.mining_threads == 1,
            c.staking_threads == 1,
    {
        MinerConfig { coinbase_pubkey: [0u8; 32], mining_threads: 1, staking_threads: 1 }
    }
}

/// One stake unit for proof-of-stake difficulty: a coin held a day.
pub const STAKE_REFERENCE_UNIT: u64 = 86_400_000_000_000;

/// The kernel difficulty of a stake weight at tip difficulty `bits`: the tip
/// difficulty less the extra bits the weight earns, never below the floor.
pub open spec fn pos_difficulty_spec(weight: u64, bits: u32, floor: u32) -> u32 {
    let lowered: int = if weight >= STAKE_REFERENCE_UNIT {
        let z = leading_zeros_from_weight_spec(weight, STAKE_REFERENCE_UNIT);
        if bits >= z { bits - z } else { 0 }
    } else {
        bits as int
    };
    if lowered >= floor { lowered as u32 } else { floor }
}

/// The nonce `k` steps after `start`, wrapping around the 64-bit nonces.
pub open spec fn nonce_after(start: u64, k: int) -> u64 {
    if start + k <= u64::MAX { (start + k) as u64 } else { (start + k - 0x1_0000_0000_0000_0000) as u64 }
}

/// Whether a nonce solves the block on `parent_hash` at `height`: the block
/// hash meets `bits`.
pub open spec fn pow_solves(parent_hash: [u8; 32], height: u64, nonce: u64, extra_data: Seq<u8>, bits: u32) -> bool {
    meets_difficulty_spec(sha256d_spec(block_preimage(parent_hash, height, nonce, extra_data))@, bits)
}

/// The tip after accepting a block.
pub open spec fn next_tip_spec(config: HybridConsensusConfig, tip: ChainTip, block_hash: [u8; 32], height: u64,
    block_time: u64, data: BlockConsensusData) -> ChainTip {
    let work = tip.cumulative_work + block_work_spec(data);
    let t = ChainTip {
        cumulative_work: if work > u128::MAX { u128::MAX } else { work as u128 },
        height,
        hash: block_hash,
        last_block_time: block_time,
        stake_modifier: if data.consensus_type == ConsensusType::ProofOfStake { data.stake_modifier } else { tip.stake_modifier },
        ..tip
    };
    if data.consensus_type == ConsensusType::ProofOfWork && height > 0 && height % config.pow.difficulty_adjustment_window == 0 {
        let actual = if block_time >= tip.window_start_time { (block_time - tip.window_start_time) as u64 } else { 0u64 };
        ChainTip {
            difficulty_bits: retarget_spec(tip.difficulty_bits, actual, config.pow.timespan_spec() as u64) as u32,
            window_start_time: block_time,
            window_start_height: height,
            ..t
        }
    } else {
        t
    }
}

/// The engine.
#[derive(Debug)]
pub struct HybridConsensusEngine {
    config: HybridConsensusConfig,
    tip: ChainTip,
    nonce_counter: u64,
}

impl HybridConsensusEngine {
    #[verifier::type_invariant]
    spec fn wf(self) -> bool {
        self.config.valid() && self.tip.difficulty_bits <= 256
    }

    /// The tip.
    pub closed spec fn tip_view(&self) -> ChainTip {
        self.tip
    }

    /// The parameters.
    pub closed spec fn config_view(&self) -> HybridConsensusConfig {
        self.config
    }

    /// The first nonce of the next mining batch.
    pub closed spec fn nonce_view(&self) -> u64 {
        self.nonce_counter
    }

    /// An engine at a fresh tip stamped `now`, at the configured difficulty.
    pub fn new_at(config: HybridConsensusConfig, now: u64) -> (e: Self)
        requires
            config.valid(),
        ensures
            e.config_view() == config,
            e.tip_view() == (ChainTip { difficulty_bits: config.pow.initial_difficulty_bits, ..ChainTip::default_at_spec(now) }),
            e.nonce_view() == 0,
    {
        let tip = ChainTip { difficulty_bits: config.pow.initial_difficulty_bits, ..ChainTip::default_at(now) };
        HybridConsensusEngine { config, tip, nonce_counter: 0 }
    }

    /// An engine at a fresh tip stamped with the current time.
    pub fn new(config: HybridConsensusConfig) -> (e: Self)
        requires
            config.valid(),
        ensures
            e.config_view() == config,
            e.tip_view().difficulty_bits == config.pow.initial_difficulty_bits,
            e.tip_view().height == 0,
            e.tip_view().cumulative_work == 0,
            e.nonce_view() == 0,
    {
        let now = crate::node::consensus_data::unix_now();
        Self::new_at(config, now)
    }

    /// The tip.
    pub fn tip(&self) -> (t: ChainTip)
        ensures
            t == self.tip_view(),
    {
        self.tip
    }

    /// The parameters.
    pub fn config_ref(&self) -> (c: &HybridConsensusConfig)
        ensures
            *c == self.config_view(),
    {
        &self.config
    }

    /// Mines on `parent_hash` at `height`: tries nonces from the next batch
    /// start (batches are a million nonces apart), wrapping around, until a
    /// block hash meets the tip difficulty or `stop` says to stop. `None`
    /// when stopped or when every 64-bit nonce was tried.
    pub fn mine_pow_block<F: Fn() -> bool>(&mut self, parent_hash: &[u8; 32], height: u64, extra_data: &[u8], stop: &F)
        -> (r: Option<BlockConsensusData>)
        requires
            call_requires(*stop, ()),
            forall|s: ()| call_requires(*stop, s),
        ensures
            final(self).tip_view() == old(self).tip_view(),
            final(self).config_view() == old(self).config_view(),
            final(self).nonce_view() == (if old(self).nonce_view() + 1_000_000 > u64::MAX {
                (old(self).nonce_view() + 1_000_000 - 0x1_0000_0000_0000_0000) as u64
            } else {
                (old(self).nonce_view() + 1_000_000) as u64
            }),
            r matches Some(d) ==> {
                &&& d.consensus_type == ConsensusType::ProofOfWork
                &&& d.difficulty_bits == old(self).tip_view().difficulty_bits
                &&& d.stake_modifier == crate::notes::tree::zero32()
                &&& d.coin_age_consumed == 0
                &&& pow_solves(*parent_hash, height, d.nonce, extra_data@, d.difficulty_bits)
                &&& exists|k: int| 0 <= k <= u64::MAX && d.nonce == #[trigger] nonce_after(old(self).nonce_view(), k)
                    && forall|j: int| 0 <= j < k ==> !pow_solves(*parent_hash, height,
                        #[trigger] nonce_after(old(self).nonce_view(), j), extra_data@, d.difficulty_bits)
            },
    {
        proof {
            use_type_invariant(&*self);
        }
        let difficulty_bits = self.tip.difficulty_bits;
        let start_nonce = self.nonce_counter;
        self.nonce_counter = self.nonce_counter.wrapping_add(1_000_000);
        let mut nonce = start_nonce;
        let mut tries: u64 = 0;
        loop
            invariant
                difficulty_bits <= 256,
                difficulty_bits == old(self).tip.difficulty_bits,
                start_nonce == old(self).nonce_counter,
                nonce == nonce_after(start_nonce, tries as int),
                forall|j: int| 0 <= j < tries ==> !pow_solves(*parent_hash, height,
                    #[trigger] nonce_after(start_nonce, j), extra_data@, difficulty_bits),
                self.tip == old(self).tip,
                self.config == old(self).config,
                self.nonce_counter == (if old(self).nonce_counter + 1_000_000 > u64::MAX {
                    (old(self).nonce_counter + 1_000_000 - 0x1_0000_0000_0000_0000) as u64
                } else {
                    (old(self).nonce_counter + 1_000_000) as u64
                }),
                forall|s: ()| call_requires(*stop, s),
            decreases u64::MAX - tries,
        {
            if stop() {
                return None;
            }
            let hash = sha256d_block_hash(parent_hash, height, nonce, extra_data);
            if meets_difficulty(&hash, difficulty_bits) {
                proof {
                    let k = tries as int;
                    assert(old(self).nonce_view() == start_nonce);
                    assert(nonce == nonce_after(old(self).nonce_view(), k));
                    assert(forall|j: int| 0 <= j < k ==> !pow_solves(*parent_hash, height,
                        #[trigger] nonce_after(old(self).nonce_view(), j), extra_data@, difficulty_bits));
                }
                return Some(BlockConsensusData {
                    consensus_type: ConsensusType::ProofOfWork,
                    nonce,
                    difficulty_bits,
                    stake_modifier: [0u8; 32],
                    coin_age_consumed: 0,
                });
            }
            if tries == u64::MAX {
                return None;
            }
            tries = tries + 1;
            nonce = nonce.wrapping_add(1);
            assert(nonce == nonce_after(start_nonce, tries as int));
        }
    }

    /// Tries to mint with a stake: the stake must weigh something, and the
    /// kernel hash must meet the tip difficulty lowered by the weight (never
    /// below the floor). The new stake modifier hashes the tip's with the kernel.
    pub fn try_pos_mint(&self, lamports: u64, held_secs: u64, coin_age_consumed: u64, kernel_hash: &[u8; 32])
        -> (r: Option<BlockConsensusData>)
        ensures
            ({
                let w = stake_weight_spec(lamports, held_secs);
                let t = self.tip_view();
                let d = pos_difficulty_spec(w, t.difficulty_bits, self.config_view().pos.min_difficulty_bits);
                &&& r is Some <==> (w != 0 && meets_difficulty_spec(kernel_hash@, d))
                &&& r matches Some(x) ==> x == (BlockConsensusData {
                        consensus_type: ConsensusType::ProofOfStake,
                        nonce: 0,
                        difficulty_bits: t.difficulty_bits,
                        stake_modifier: sha256_spec(t.stake_modifier@ + kernel_hash@),
                        coin_age_consumed,
                    })
            }),
    {
        proof {
            use_type_invariant(self);
        }
        let weight = stake_weight(lamports, held_secs);
        if weight == 0 {
            return None;
        }
        let bits = self.tip.difficulty_bits;
        let lowered: u32 = if weight >= STAKE_REFERENCE_UNIT {
            let z = leading_zeros_from_weight(weight, STAKE_REFERENCE_UNIT);
            bits.saturating_sub(z)
        } else {
            bits
        };
        let floor = self.config.pos.min_difficulty_bits;
        let pos_difficulty = if lowered >= floor { lowered } else { floor };
        if !meets_difficulty(kernel_hash, pos_difficulty) {
            return None;
        }
        let new_stake_modifier = compute_stake_modifier(&self.tip.stake_modifier, kernel_hash);
        Some(BlockConsensusData {
            consensus_type: ConsensusType::ProofOfStake,
            nonce: 0,
            difficulty_bits: bits,
            stake_modifier: new_stake_modifier,
            coin_age_consumed,
        })
    }

    /// Checks a block and moves the tip to it. A proof-of-work block must be
    /// at the tip difficulty and its hash must meet it; a proof-of-stake
    /// block must be at the tip difficulty. A refused block leaves the tip.
    pub fn accept_block(&mut self, parent_hash: &[u8; 32], block_hash: &[u8; 32], height: u64, block_time: u64,
        consensus_data: &BlockConsensusData, extra_data: &[u8]) -> (r: Result<(), ConsensusError>)
        ensures
            ({
                let t = old(self).tip_view();
                let d = *consensus_data;
                &&& (d.difficulty_bits != t.difficulty_bits ==> r == Err::<(), ConsensusError>(
                        ConsensusError::InvalidDifficulty { expected: t.difficulty_bits, found: d.difficulty_bits }))
                &&& (d.difficulty_bits == t.difficulty_bits && d.consensus_type == ConsensusType::ProofOfWork
                        && !meets_difficulty_spec(sha256d_spec(block_preimage(*parent_hash, height, d.nonce, extra_data@))@, d.difficulty_bits)
                        ==> r == Err::<(), ConsensusError>(ConsensusError::InsufficientWork))
                &&& (r is Ok <==> d.difficulty_bits == t.difficulty_bits && (d.consensus_type == ConsensusType::ProofOfWork
                        ==> meets_difficulty_spec(sha256d_spec(block_preimage(*parent_hash, height, d.nonce, extra_data@))@, d.difficulty_bits)))
                &&& (r is Ok ==> final(self).tip_view() == next_tip_spec(old(self).config_view(), t, *block_hash, height, block_time, d))
                &&& (r is Err ==> final(self).tip_view() == t)
            }),
            final(self).config_view() == old(self).config_view(),
            final(self).nonce_view() == old(self).nonce_view(),
    {
        proof {
            use_type_invariant(&*self);
        }
        let expected = self.tip.difficulty_bits;
        if consensus_data.difficulty_bits != expected {
            return Err(ConsensusError::InvalidDifficulty { expected, found: consensus_data.difficulty_bits });
        }
        match consensus_data.consensus_type {
            ConsensusType::ProofOfWork => {
                let hash = sha256d_block_hash(parent_hash, height, consensus_data.nonce, extra_data);
                if !meets_difficulty(&hash, consensus_data.difficulty_bits) {
                    return Err(ConsensusError::InsufficientWork);
                }
            },
            ConsensusType::ProofOfStake => {},
        }
        self.update_tip(block_hash, height, block_time, consensus_data);
        Ok(())
    }

    fn update_tip(&mut self, block_hash: &[u8; 32], height: u64, block_time: u64, data: &BlockConsensusData)
        ensures
            final(self).tip_view() == next_tip_spec(old(self).config_view(), old(self).tip_view(), *block_hash, height, block_time, *data),
            final(self).config_view() == old(self).config_view(),
            final(self).nonce_view() == old(self).nonce_view(),
    {
        proof {
            use_type_invariant(&*self);
        }
        let mut tip = self.tip;
        let work = block_work(data);
        tip.cumulative_work = tip.cumulative_work.saturating_add(work);
        tip.height = height;
        tip.hash = *block_hash;
        tip.last_block_time = block_time;
        if data.consensus_type == ConsensusType::ProofOfStake {
            tip.stake_modifier = data.stake_modifier;
        }
        let window = self.config.pow.difficulty_adjustment_window;
        if data.consensus_type == ConsensusType::ProofOfWork && height > 0 && height % window == 0 {
            let actual_secs = block_time.saturating_sub(tip.window_start_time);
            let target_secs = self.config.pow.target_window_timespan();
            proof {
                let w = self.config.pow.difficulty_adjustment_window;
                let b = self.config.pow.target_block_time;
                assert(w * b > 0) by (nonlinear_arith)
                    requires w > 0, b > 0;
                assert(retarget_inputs_ok(tip.difficulty_bits, actual_secs, target_secs));
            }
            tip.difficulty_bits = retarget(tip.difficulty_bits, actual_secs, target_secs);
            tip.window_start_time = block_time;
            tip.window_start_height = height;
        }
        self.tip = tip;
    }

    /// Whether a chain with this much cumulative work beats the tip.
    pub fn is_heavier_chain(&self, candidate_cumulative_work: u128) -> (r: bool)
        ensures
            r == (candidate_cumulative_work > self.tip_view().cumulative_work),
    {
        candidate_cumulative_work > self.tip.cumulative_work
    }
}

/// Law: accepting a block never lowers the cumulative work of the tip.
pub proof fn lemma_accept_never_lowers_work(config: HybridConsensusConfig, tip: ChainTip, block_hash: [u8; 32],
    height: u64, block_time: u64, data: BlockConsensusData)
    ensures
        next_tip_spec(config, tip, block_hash, height, block_time, data).cumulative_work >= tip.cumulative_work,
{
}

proof fn lemma_bit_length_between(n: nat, k: nat)
    requires
        vstd::arithmetic::power2::pow2(k) <= n < vstd::arithmetic::power2::pow2(k + 1),
    ensures
        bit_length(n) == k + 1,
    decreases k,
{
    vstd::arithmetic::power2::lemma_pow2_unfold(k + 1);
    if k == 0 {
        vstd::arithmetic::power2::lemma2_to64();
        assert(n == 1);
        assert(bit_length(0) == 0);
        assert(bit_length(1) == 1 + bit_length(0));
    } else {
        vstd::arithmetic::power2::lemma_pow2_unfold(k);
        let m = (k - 1) as nat;
        assert(vstd::arithmetic::power2::pow2(m) <= n / 2 < vstd::arithmetic::power2::pow2(m + 1));
        lemma_bit_length_between(n / 2, m);
    }
}

proof fn lemma_bit_length_monotone(a: nat, b: nat)
    requires
        a <= b,
    ensures
        bit_length(a) <= bit_length(b),
    decreases b,
{
    if a > 0 {
        lemma_bit_length_monotone(a / 2, b / 2);
    }
}

/// Law: a stake of at least one reference unit, with `2^k` units at most its
/// weight and `2^(k+1)` units more than it (so `k` is `floor(log2(weight /
/// unit))`), faces the tip difficulty less `k` bits, never below the floor.
pub proof fn lemma_pos_difficulty_from_weight(weight: u64, bits: u32, floor: u32, k: nat)
    requires
        vstd::arithmetic::power2::pow2(k) * STAKE_REFERENCE_UNIT <= weight,
        weight < vstd::arithmetic::power2::pow2(k + 1) * STAKE_REFERENCE_UNIT,
    ensures
        pos_difficulty_spec(weight, bits, floor) as int == (if bits - k >= floor { bits - k } else { floor as int }),
{
    let u = STAKE_REFERENCE_UNIT as int;
    let w = weight as int;
    let p = vstd::arithmetic::power2::pow2(k) as int;
    let p2 = vstd::arithmetic::power2::pow2(k + 1) as int;
    vstd::arithmetic::power2::lemma_pow2_pos(k);
    vstd::arithmetic::power2::lemma_pow2_unfold(k + 1);
    assert(w >= u) by (nonlinear_arith) requires p * u <= w, p >= 1, u > 0;
    let q = w / u;
    assert(q * u <= w < q * u + u) by (nonlinear_arith) requires u > 0, q == w / u, w >= 0;
    assert(p <= q) by (nonlinear_arith) requires p * u <= w, w < q * u + u, u > 0;
    assert(q < p2) by (nonlinear_arith) requires q * u <= w, w < p2 * u, u > 0;
    lemma_bit_length_between(q as nat, k);
    if w == u {
        assert(q == 1) by (nonlinear_arith) requires q * u <= w, w < q * u + u, u > 0, w == u;
        if k > 0 {
            vstd::arithmetic::power2::lemma_pow2_unfold(k);
            vstd::arithmetic::power2::lemma_pow2_pos((k - 1) as nat);
        }
        assert(k == 0);
    }
    assert(leading_zeros_from_weight_spec(weight, STAKE_REFERENCE_UNIT) == k);
}

/// Law: a stake lighter than one reference unit faces the tip difficulty,
/// never below the floor.
pub proof fn lemma_pos_difficulty_light_stake(weight: u64, bits: u32, floor: u32)
    requires
        weight < STAKE_REFERENCE_UNIT,
    ensures
        pos_difficulty_spec(weight, bits, floor) as int == (if bits >= floor { bits as int } else { floor as int }),
{
}

/// Law: a heavier stake never faces a higher kernel difficulty.
pub proof fn lemma_pos_difficulty_monotone(w1: u64, w2: u64, bits: u32, floor: u32)
    requires
        w1 <= w2,
    ensures
        pos_difficulty_spec(w2, bits, floor) <= pos_difficulty_spec(w1, bits, floor),
{
    let u = STAKE_REFERENCE_UNIT;
    if w1 > u {
        assert(w1 as int / u as int <= w2 as int / u as int) by (nonlinear_arith)
            requires w1 <= w2, u > 0;
        lemma_bit_length_monotone((w1 / u) as nat, (w2 / u) as nat);
    }
    if w1 >= u && w1 <= u {
        assert(leading_zeros_from_weight_spec(w1, u) == 0);
    }
}

} // verus!
