//! Producing a block: the recorder's oldest pending transactions are
//! drained, executed against the bank (a function handed in), and those it
//! accepts, in order, make the block; the transaction root over their
//! encodings (another function handed in) enters the block hash; the
//! consensus index and the recorder move on together.

use vstd::prelude::*;
use crate::hash::{sha256_digest, sha256_spec, sha256d_spec};
use crate::bytes::push_bytes;
use crate::node::consensus_data::{BlockConsensusData, block_preimage, sha256d_block_hash};
use crate::node::block_store::{BlockConsensusRecord, HybridBlockStore, tip_work_spec, extended_work};
use crate::node::recorder::{BlockRecorder, SealedBlock};

verus! {

/// The most transactions a block takes from the recorder.
pub const MAX_BLOCK_TXS: usize = 50_000;

/// The concatenation of byte strings, in order.
pub open spec fn concat_all(parts: Seq<Seq<u8>>) -> Seq<u8>
    decreases parts.len(),
{
    if parts.len() == 0 {
        Seq::empty()
    } else {
        concat_all(parts.drop_last()) + parts.last()
    }
}

/// The byte strings held by a list of buffers.
pub open spec fn buffers_view(bufs: Seq<Vec<u8>>) -> Seq<Seq<u8>> {
    bufs.map_values(|b: Vec<u8>| b@)
}

/// The transaction root: the SHA-256 digest of the serialized transactions
/// one after another.
pub open spec fn tx_root_spec(tx_bytes: Seq<Vec<u8>>) -> [u8; 32] {
    sha256_spec(concat_all(buffers_view(tx_bytes)))
}

/// The SHA-256 digest of the serialized transactions, one after another
/// (32 bytes, also for no transaction).
pub fn merkle_root_of_txs(tx_bytes: &[Vec<u8>]) -> (r: Vec<u8>)
    ensures
        r@ == tx_root_spec(tx_bytes@)@,
{
    let mut all: Vec<u8> = Vec::new();
    let mut k: usize = 0;
    while k < tx_bytes.len()
        invariant
            0 <= k <= tx_bytes@.len(),
            all@ == concat_all(buffers_view(tx_bytes@.subrange(0, k as int))),
        decreases tx_bytes@.len() - k,
    {
        let ghost before = all@;
        push_bytes(&mut all, tx_bytes[k].as_slice());
        proof {
            let next = buffers_view(tx_bytes@.subrange(0, k as int + 1));
            assert(next.drop_last() =~= buffers_view(tx_bytes@.subrange(0, k as int)));
            assert(next.last() == tx_bytes@[k as int]@);
        }
        k = k + 1;
    }
    assert(tx_bytes@.subrange(0, tx_bytes@.len() as int) =~= tx_bytes@);
    let root = sha256_digest(all.as_slice());
    let mut out: Vec<u8> = Vec::new();
    push_bytes(&mut out, &root);
    out
}

/// The hash of a produced block: SHA256d of parent hash, height, nonce and
/// transaction root.
pub open spec fn produced_hash_spec(parent_hash: [u8; 32], height: u64, data: BlockConsensusData,
    tx_bytes: Seq<Vec<u8>>) -> [u8; 32] {
    sha256d_spec(block_preimage(parent_hash, height, data.nonce, tx_root_spec(tx_bytes)@))
}

/// How many pending transactions a block drains from a queue of `len`.
pub open spec fn drain_len(len: nat) -> int {
    if MAX_BLOCK_TXS <= len { MAX_BLOCK_TXS as int } else { len as int }
}

/// The transactions kept among the first `n`: those whose result is `true`, in order.
pub open spec fn kept_upto<T>(txs: Seq<T>, results: Seq<bool>, n: int) -> Seq<T>
    decreases n,
{
    if n <= 0 {
        Seq::empty()
    } else {
        let prev = kept_upto(txs, results, n - 1);
        if results[n - 1] { prev.push(txs[n - 1]) } else { prev }
    }
}

/// The transactions the bank accepts: each paired with its result, as far
/// as both lists go, kept where the result is `true`.
pub open spec fn kept_spec<T>(txs: Seq<T>, results: Seq<bool>) -> Seq<T> {
    kept_upto(txs, results, if txs.len() <= results.len() { txs.len() as int } else { results.len() as int })
}

/// Whether `execute`, run on the transactions `txs`, may give `results`.
pub open spec fn executed_as<T, F: Fn(&Vec<T>) -> Vec<bool>>(execute: F, txs: Seq<T>, results: Seq<bool>) -> bool {
    exists|d: Vec<T>, rv: Vec<bool>| d@ == txs && rv@ == results && #[trigger] call_ensures(execute, (&d,), rv)
}

/// Whether `encs` are encodings that `encode` may give of `txs`, one each.
pub open spec fn encoded_as<T, G: Fn(&T) -> Vec<u8>>(encode: G, txs: Seq<T>, encs: Seq<Vec<u8>>) -> bool {
    &&& encs.len() == txs.len()
    &&& forall|i: int| 0 <= i < txs.len() ==> #[trigger] call_ensures(encode, (&txs[i],), encs[i])
}

/// Produces the block on `parent_hash` at `height`: drains up to
/// `MAX_BLOCK_TXS` of the oldest pending transactions, executes them with
/// `execute`, keeps those it accepts (in order), hashes parent, height,
/// nonce and the root of the kept transactions' encodings, records the
/// block in the consensus index on top of its tip's work, and moves the
/// recorder to the next height on the new hash.
pub fn produce_block<T, F: Fn(&Vec<T>) -> Vec<bool>, G: Fn(&T) -> Vec<u8>>(recorder: &mut BlockRecorder<T>,
    block_store: &mut HybridBlockStore, execute: &F, encode: &G, parent_hash: [u8; 32], height: u64,
    block_time: u64, consensus_data: BlockConsensusData) -> (r: Result<SealedBlock<T>, String>)
    requires
        old(recorder).height_view() < u64::MAX,
        forall|v: &Vec<T>| call_requires(*execute, (v,)),
        forall|t: &T| call_requires(*encode, (t,)),
    ensures
        ({
            let q = old(recorder).pending_view();
            let m = drain_len(q.len());
            let drained = q.take(m).map_values(|p: crate::node::recorder::PendingTransaction<T>| p.tx);
            r matches Ok(b) && {
                &&& b.height == height && b.parent_hash == parent_hash && b.block_time == block_time
                &&& b.consensus_data == consensus_data
                &&& exists|res: Seq<bool>| #[trigger] executed_as(*execute, drained, res)
                        && b.transactions@ == kept_spec(drained, res)
                &&& exists|encs: Seq<Vec<u8>>| #[trigger] encoded_as(*encode, b.transactions@, encs)
                        && b.block_hash == produced_hash_spec(parent_hash, height, consensus_data, encs)
                &&& final(block_store).records() == old(block_store).records().push(BlockConsensusRecord {
                        height,
                        block_hash: b.block_hash,
                        parent_hash,
                        block_time,
                        consensus_data,
                        cumulative_work: extended_work(tip_work_spec(old(block_store).records()), consensus_data),
                    })
                &&& final(block_store).spent() == old(block_store).spent()
                &&& final(recorder).height_view() == old(recorder).height_view() + 1
                &&& final(recorder).parent_view() == b.block_hash
                &&& final(recorder).pending_view() == q.skip(m)
            }
        }),
{
    let ghost q = recorder.pending_view();
    let mut txs = recorder.drain_transactions(MAX_BLOCK_TXS);
    let ghost drained = txs@;
    assert(drained =~= q.take(drain_len(q.len())).map_values(|p: crate::node::recorder::PendingTransaction<T>| p.tx));
    let results = execute(&txs);
    proof {
        assert(executed_as(*execute, drained, results@));
    }
    let n = if txs.len() <= results.len() { txs.len() } else { results.len() };
    let mut rev: Vec<T> = Vec::new();
    while txs.len() > 0
        invariant
            txs@.len() + rev@.len() == drained.len(),
            forall|i: int| 0 <= i < txs@.len() ==> txs@[i] == drained[i],
            forall|i: int| 0 <= i < rev@.len() ==> rev@[i] == drained[drained.len() - 1 - i],
        decreases txs@.len(),
    {
        let x = txs.pop().unwrap();
        rev.push(x);
    }
    let mut kept: Vec<T> = Vec::new();
    let mut k: usize = 0;
    while k < n
        invariant
            0 <= k <= n,
            n <= drained.len(),
            n <= results@.len(),
            rev@.len() == drained.len() - k,
            forall|i: int| 0 <= i < rev@.len() ==> rev@[i] == drained[drained.len() - 1 - i],
            kept@ == kept_upto(drained, results@, k as int),
        decreases n - k,
    {
        let x = rev.pop().unwrap();
        assert(x == drained[k as int]);
        if results[k] {
            kept.push(x);
        }
        k = k + 1;
    }
    assert(kept@ == kept_spec(drained, results@));
    let mut encs: Vec<Vec<u8>> = Vec::new();
    let mut j: usize = 0;
    while j < kept.len()
        invariant
            0 <= j <= kept@.len(),
            encs@.len() == j,
            forall|t: &T| call_requires(*encode, (t,)),
            forall|i: int| 0 <= i < j ==> #[trigger] call_ensures(*encode, (&kept@[i],), encs@[i]),
        decreases kept@.len() - j,
    {
        let e = encode(&kept[j]);
        encs.push(e);
        j = j + 1;
    }
    proof {
        assert(encoded_as(*encode, kept@, encs@));
    }
    let tx_root = merkle_root_of_txs(encs.as_slice());
    let block_hash = sha256d_block_hash(&parent_hash, height, consensus_data.nonce, tx_root.as_slice());
    let parent_work = block_store.tip_cumulative_work();
    block_store.insert_block(height, block_hash, parent_hash, block_time, consensus_data, parent_work);
    recorder.seal_block(block_hash);
    let b = SealedBlock { height, parent_hash, block_hash, block_time, transactions: kept, consensus_data };
    proof {
        assert(executed_as(*execute, drained, results@) && b.transactions@ == kept_spec(drained, results@));
        assert(encoded_as(*encode, b.transactions@, encs@)
            && b.block_hash == produced_hash_spec(parent_hash, height, consensus_data, encs@));
    }
    Ok(b)
}

} // verus!
