//! Classic transactions. Their amounts are always zero: values live in the
//! compact commitments, so a transaction only carries who gets paid.

use vstd::prelude::*;
use vstd::bytes::{spec_u32_to_le_bytes, spec_u64_to_le_bytes, u64_to_le_bytes};
use crate::hash::{sha256d, sha256d_spec};
use crate::encode::{put_u32, put_u64, put32, put_bool, put_bytes_list, bool_byte};
use crate::bytes::copy_bytes;
use crate::notes::tree::zero32;

verus! {

/// A reference to an earlier output.
#[derive(Debug)]
pub struct TxInput {
    pub prev_txid: [u8; 32],
    pub prev_vout: u32,
    pub script_sig: Vec<u8>,
}

/// A classic output; `value` is always zero.
#[derive(Debug)]
pub struct TxOutput {
    pub value: u64,
    pub script_pubkey: Vec<u8>,
}

/// A classic transaction.
#[derive(Debug)]
pub struct Transaction {
    pub version: u32,
    pub inputs: Vec<TxInput>,
    pub outputs: Vec<TxOutput>,
    pub locktime: u32,
    pub is_coinstake: bool,
}

/// The canonical bytes of an input.
pub open spec fn input_bytes(i: TxInput) -> Seq<u8> {
    i.prev_txid@ + spec_u32_to_le_bytes(i.prev_vout) + spec_u64_to_le_bytes(i.script_sig@.len() as u64) + i.script_sig@
}

/// The canonical bytes of an output.
pub open spec fn output_bytes(o: TxOutput) -> Seq<u8> {
    spec_u64_to_le_bytes(o.value) + spec_u64_to_le_bytes(o.script_pubkey@.len() as u64) + o.script_pubkey@
}

/// The inputs' bytes, without the count.
pub open spec fn inputs_bytes(xs: Seq<TxInput>) -> Seq<u8>
    decreases xs.len(),
{
    if xs.len() == 0 { Seq::empty() } else { inputs_bytes(xs.drop_last()) + input_bytes(xs.last()) }
}

/// The outputs' bytes, without the count.
pub open spec fn outputs_bytes(xs: Seq<TxOutput>) -> Seq<u8>
    decreases xs.len(),
{
    if xs.len() == 0 { Seq::empty() } else { outputs_bytes(xs.drop_last()) + output_bytes(xs.last()) }
}

/// The canonical bytes of a transaction: version, counted inputs, counted
/// outputs, locktime and the coinstake flag.
pub open spec fn tx_bytes(t: Transaction) -> Seq<u8> {
    spec_u32_to_le_bytes(t.version) + spec_u64_to_le_bytes(t.inputs@.len() as u64) + inputs_bytes(t.inputs@)
        + spec_u64_to_le_bytes(t.outputs@.len() as u64) + outputs_bytes(t.outputs@)
        + spec_u32_to_le_bytes(t.locktime) + bool_byte(t.is_coinstake)
}

fn put_inputs(out: &mut Vec<u8>, xs: &Vec<TxInput>)
    ensures
        final(out)@ == old(out)@ + inputs_bytes(xs@),
{
    let ghost start = out@;
    let mut k: usize = 0;
    while k < xs.len()
        invariant
            0 <= k <= xs@.len(),
            out@ == start + inputs_bytes(xs@.subrange(0, k as int)),
        decreases xs@.len() - k,
    {
        let ghost before = out@;
        put32(out, &xs[k].prev_txid);
        put_u32(out, xs[k].prev_vout);
        put_bytes_list(out, xs[k].script_sig.as_slice());
        proof {
            let s = xs@.subrange(0, k as int + 1);
            assert(s.drop_last() =~= xs@.subrange(0, k as int));
            assert(out@ =~= before + input_bytes(xs@[k as int]));
        }
        k = k + 1;
    }
    assert(xs@.subrange(0, xs@.len() as int) =~= xs@);
}

fn put_outputs(out: &mut Vec<u8>, xs: &Vec<TxOutput>)
    ensures
        final(out)@ == old(out)@ + outputs_bytes(xs@),
{
    let ghost start = out@;
    let mut k: usize = 0;
    while k < xs.len()
        invariant
            0 <= k <= xs@.len(),
            out@ == start + outputs_bytes(xs@.subrange(0, k as int)),
        decreases xs@.len() - k,
    {
        let ghost before = out@;
        put_u64(out, xs[k].value);
        put_bytes_list(out, xs[k].script_pubkey.as_slice());
        proof {
            let s = xs@.subrange(0, k as int + 1);
            assert(s.drop_last() =~= xs@.subrange(0, k as int));
            assert(out@ =~= before + output_bytes(xs@[k as int]));
        }
        k = k + 1;
    }
    assert(xs@.subrange(0, xs@.len() as int) =~= xs@);
}

impl Transaction {
    /// The canonical bytes of the transaction.
    pub fn to_bytes(&self) -> (r: Vec<u8>)
        ensures
            r@ == tx_bytes(*self),
    {
        let mut out: Vec<u8> = Vec::new();
        put_u32(&mut out, self.version);
        put_u64(&mut out, self.inputs.len() as u64);
        put_inputs(&mut out, &self.inputs);
        put_u64(&mut out, self.outputs.len() as u64);
        put_outputs(&mut out, &self.outputs);
        put_u32(&mut out, self.locktime);
        put_bool(&mut out, self.is_coinstake);
        assert(out@ =~= tx_bytes(*self));
        out
    }

    /// SHA256d of the canonical bytes.
    pub fn txid(&self) -> (r: [u8; 32])
        ensures
            r == sha256d_spec(tx_bytes(*self)),
    {
        let bytes = self.to_bytes();
        sha256d(bytes.as_slice())
    }

    /// The coinbase of a block: one input with no previous output (vout
    /// `0xFFFF_FFFF`) whose script is the height in eight little-endian bytes,
    /// and one zero-value output to `dest`. The reward is not written: it
    /// lives in the block's compact commitment.
    pub fn coinbase(block_height: u64, _reward: u64, dest: &[u8]) -> (t: Self)
        ensures
            t.version == 1,
            t.locktime == 0,
            !t.is_coinstake,
            t.inputs@.len() == 1,
            t.inputs@[0].prev_txid == zero32(),
            t.inputs@[0].prev_vout == 0xFFFF_FFFFu32,
            t.inputs@[0].script_sig@ == spec_u64_to_le_bytes(block_height),
            t.outputs@.len() == 1,
            t.outputs@[0].value == 0,
            t.outputs@[0].script_pubkey@ == dest@,
    {
        let h = u64_to_le_bytes(block_height);
        let sig = copy_bytes(h.as_slice());
        let mut inputs: Vec<TxInput> = Vec::new();
        inputs.push(TxInput { prev_txid: [0u8; 32], prev_vout: 0xFFFF_FFFF, script_sig: sig });
        let mut outputs: Vec<TxOutput> = Vec::new();
        outputs.push(TxOutput { value: 0, script_pubkey: copy_bytes(dest) });
        Transaction { version: 1, inputs, outputs, locktime: 0, is_coinstake: false }
    }

    /// The coinstake of a PoS block: one input with an empty script, an
    /// empty marker output, and a zero-value output to `dest`.
    pub fn coinstake(_stake_coins: u64, _reward: u64, dest: &[u8]) -> (t: Self)
        ensures
            t.version == 1,
            t.locktime == 0,
            t.is_coinstake,
            t.inputs@.len() == 1,
            t.inputs@[0].prev_txid == zero32(),
            t.inputs@[0].prev_vout == 0,
            t.inputs@[0].script_sig@.len() == 0,
            t.outputs@.len() == 2,
            t.outputs@[0].value == 0,
            t.outputs@[0].script_pubkey@.len() == 0,
            t.outputs@[1].value == 0,
            t.outputs@[1].script_pubkey@ == dest@,
    {
        let mut inputs: Vec<TxInput> = Vec::new();
        inputs.push(TxInput { prev_txid: [0u8; 32], prev_vout: 0, script_sig: Vec::new() });
        let mut outputs: Vec<TxOutput> = Vec::new();
        outputs.push(TxOutput { value: 0, script_pubkey: Vec::new() });
        outputs.push(TxOutput { value: 0, script_pubkey: copy_bytes(dest) });
        Transaction { version: 1, inputs, outputs, locktime: 0, is_coinstake: true }
    }
}

} // verus!
