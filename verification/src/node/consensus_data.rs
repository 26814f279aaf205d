//! Per-block consensus data and the chain tip of the node.

use vstd::prelude::*;
use crate::hash::{sha256_digest, sha256_spec, sha256d_spec, sha256d};
use crate::bytes::push_bytes;
use crate::encode::{put_u64, put_u32, put32};
use vstd::bytes::{spec_u32_to_le_bytes, spec_u64_to_le_bytes};

verus! {

/// How a block was produced.
#[derive(Clone, Copy, Debug, PartialEq, Eq, Structural)]
pub enum ConsensusType {
    ProofOfWork,
    ProofOfStake,
}

/// Consensus fields carried by a block.
#[derive(Clone, Copy, Debug)]
pub struct BlockConsensusData {
    pub consensus_type: ConsensusType,
    pub nonce: u64,
    pub difficulty_bits: u32,
    pub stake_modifier: [u8; 32],
    pub coin_age_consumed: u64,
}

/// Work a block adds: `2^min(bits, 127)` for proof of work, nothing for proof of stake.
pub open spec fn block_work_spec(data: BlockConsensusData) -> u128 {
    if data.consensus_type == ConsensusType::ProofOfWork {
        let b: u128 = if data.difficulty_bits <= 127 { data.difficulty_bits as u128 } else { 127 };
        1u128 << b
    } else {
        0
    }
}

/// Work a block adds to its chain.
pub fn block_work(data: &BlockConsensusData) -> (r: u128)
    ensures
        r == block_work_spec(*data),
{
    match data.consensus_type {
        ConsensusType::ProofOfWork => {
            let b: u128 = if data.difficulty_bits <= 127 { data.difficulty_bits as u128 } else { 127 };
            1u128 << b
        },
        ConsensusType::ProofOfStake => 0,
    }
}

/// The best chain a node knows.
#[derive(Clone, Copy, Debug)]
pub struct ChainTip {
    pub height: u64,
    pub hash: [u8; 32],
    pub cumulative_work: u128,
    pub difficulty_bits: u32,
    pub last_block_time: u64,
    pub stake_modifier: [u8; 32],
    pub window_start_time: u64,
    pub window_start_height: u64,
}

/// `SystemTime::now()`: seconds since the Unix epoch. Nothing is stated of it.
#[verifier::external_body]
pub fn unix_now() -> (r: u64) {
    std::time::SystemTime::now().duration_since(std::time::UNIX_EPOCH).map(|d| d.as_secs()).unwrap_or(0)
}

impl ChainTip {
    /// A tip at height zero at difficulty 20, with both times set to `now`.
    pub open spec fn default_at_spec(now: u64) -> ChainTip {
        ChainTip { height: 0, hash: crate::notes::tree::zero32(), cumulative_work: 0, difficulty_bits: 20,
            last_block_time: now, stake_modifier: crate::notes::tree::zero32(), window_start_time: now,
            window_start_height: 0 }
    }

    /// A tip at height zero at difficulty 20, with both times set to `now`.
    pub fn default_at(now: u64) -> (t: Self)
        ensures
            t == Self::default_at_spec(now),
    {
        ChainTip {
            height: 0,
            hash: [0u8; 32],
            cumulative_work: 0,
            difficulty_bits: 20,
            last_block_time: now,
            stake_modifier: [0u8; 32],
            window_start_time: now,
            window_start_height: 0,
        }
    }

    /// A tip at height zero at difficulty 20, stamped with the current time.
    pub fn new_now() -> (t: Self)
        ensures
            t.height == 0 && t.cumulative_work == 0 && t.difficulty_bits == 20 && t.window_start_height == 0
                && t.hash == crate::notes::tree::zero32() && t.stake_modifier == crate::notes::tree::zero32()
                && t.last_block_time == t.window_start_time,
    {
        let now = unix_now();
        ChainTip::default_at(now)
    }
}

/// Number of bits of a positive integer.
pub open spec fn bit_length(x: nat) -> nat
    decreases x,
{
    if x == 0 { 0 } else { 1 + bit_length(x / 2) }
}

/// Extra leading zero bits a stake weight earns: `floor(log2(weight / reference))`, zero at or below one reference unit.
pub open spec fn leading_zeros_from_weight_spec(weight: u64, reference_unit: u64) -> int {
    if weight <= reference_unit {
        0
    } else {
        let b = bit_length((weight / reference_unit) as nat);
        if b >= 1 { b - 1 } else { 0 }
    }
}

/// `floor(log2(weight / reference_unit))`, or zero when the weight is at most one unit.
pub fn leading_zeros_from_weight(weight: u64, reference_unit: u64) -> (r: u32)
    requires
        reference_unit > 0,
    ensures
        r == leading_zeros_from_weight_spec(weight, reference_unit),
{
    if weight <= reference_unit {
        return 0;
    }
    let ratio = weight / reference_unit;
    let mut x = ratio;
    let mut bits: u32 = 0;
    proof {
        vstd::arithmetic::power2::lemma2_to64();
    }
    while x > 0
        invariant
            bits + bit_length(x as nat) == bit_length(ratio as nat),
            bits <= 64,
            x as nat * vstd::arithmetic::power2::pow2(bits as nat) <= u64::MAX,
        decreases x,
    {
        proof {
            vstd::arithmetic::power2::lemma_pow2_unfold((bits + 1) as nat);
            vstd::arithmetic::power2::lemma_pow2_pos(bits as nat);
            let p = vstd::arithmetic::power2::pow2(bits as nat);
            assert((x / 2) as nat * (2 * p) <= x as nat * p) by (nonlinear_arith)
                requires p > 0;
            if bits >= 64 {
                vstd::arithmetic::power2::lemma2_to64();
                assert(x as nat * p >= p) by (nonlinear_arith) requires x >= 1, p > 0;
            }
        }
        x = x / 2;
        bits = bits + 1;
    }
    if bits >= 1 { bits - 1 } else { 0 }
}

/// The preimage of a block hash: parent hash, height, nonce, then extra data.
pub open spec fn block_preimage(parent_hash: [u8; 32], height: u64, nonce: u64, extra_data: Seq<u8>) -> Seq<u8> {
    parent_hash@ + spec_u64_to_le_bytes(height) + spec_u64_to_le_bytes(nonce) + extra_data
}

/// SHA256d of `parent_hash || height_le || nonce_le || extra_data`.
pub fn sha256d_block_hash(parent_hash: &[u8; 32], height: u64, nonce: u64, extra_data: &[u8]) -> (r: [u8; 32])
    ensures
        r == sha256d_spec(block_preimage(*parent_hash, height, nonce, extra_data@)),
{
    let mut preimage: Vec<u8> = Vec::new();
    put32(&mut preimage, parent_hash);
    put_u64(&mut preimage, height);
    put_u64(&mut preimage, nonce);
    push_bytes(&mut preimage, extra_data);
    sha256d(preimage.as_slice())
}

/// The preimage of a stake kernel: modifier, output hash, output index, block time.
pub open spec fn kernel_preimage(stake_modifier: [u8; 32], txout_hash: [u8; 32], txout_n: u32, block_time: u64) -> Seq<u8> {
    stake_modifier@ + txout_hash@ + spec_u32_to_le_bytes(txout_n) + spec_u64_to_le_bytes(block_time)
}

/// SHA256d of `stake_modifier || txout_hash || txout_n_le || block_time_le`.
pub fn pos_kernel_hash(stake_modifier: &[u8; 32], txout_hash: &[u8; 32], txout_n: u32, block_time: u64) -> (r: [u8; 32])
    ensures
        r == sha256d_spec(kernel_preimage(*stake_modifier, *txout_hash, txout_n, block_time)),
{
    let mut preimage: Vec<u8> = Vec::new();
    put32(&mut preimage, stake_modifier);
    put32(&mut preimage, txout_hash);
    put_u32(&mut preimage, txout_n);
    put_u64(&mut preimage, block_time);
    sha256d(preimage.as_slice())
}

/// Single SHA-256 of `prev || kernel`.
pub fn compute_stake_modifier(prev: &[u8; 32], kernel: &[u8; 32]) -> (r: [u8; 32])
    ensures
        r == sha256_spec(prev@ + kernel@),
{
    let mut preimage: Vec<u8> = Vec::new();
    put32(&mut preimage, prev);
    put32(&mut preimage, kernel);
    sha256_digest(preimage.as_slice())
}

} // verus!
