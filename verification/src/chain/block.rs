//! Block headers and blocks. A block's hash is the SHA256d of its header's
//! canonical bytes; its Merkle root commits to the ids of its compact bundles.

use vstd::prelude::*;
use vstd::bytes::{spec_u32_to_le_bytes, spec_u64_to_le_bytes, lemma_auto_spec_u64_to_from_le_bytes,
    lemma_auto_spec_u32_to_from_le_bytes};
use crate::notes::action::{ActionBundle, bundle_bytes, bundle_equiv};
use crate::notes::tree::{merkle_root, merkle_root_spec};
use crate::hash::{sha256d, sha256d_spec};
use crate::encode::{put_u32, put_u64, put32};

verus! {

/// How a block was produced.
#[derive(Clone, Copy, Debug, PartialEq, Eq, Structural)]
pub enum BlockType {
    PoW,
    PoS,
}

/// The hashed part of a block.
#[derive(Clone, Copy, Debug)]
pub struct BlockHeader {
    pub version: u32,
    pub height: u64,
    pub prev_hash: [u8; 32],
    pub merkle_root: [u8; 32],
    pub timestamp: i64,
    pub difficulty: u32,
    pub block_type: BlockType,
    pub nonce: u64,
    pub stake_modifier: [u8; 32],
    pub notes_root: [u8; 32],
    pub tags_root: [u8; 32],
}

/// A header and the compact bundles it commits to.
#[derive(Debug)]
pub struct Block {
    pub header: BlockHeader,
    pub compact: Vec<ActionBundle>,
}

/// The tag of a block type: `0` for PoW, `1` for PoS.
pub open spec fn block_type_tag(t: BlockType) -> u32 {
    match t {
        BlockType::PoW => 0,
        BlockType::PoS => 1,
    }
}

/// The canonical bytes of a header: its fields in order, integers little
/// endian (the timestamp as its two's-complement 64 bits), the block type as
/// a `u32` tag.
pub open spec fn header_bytes_spec(h: BlockHeader) -> Seq<u8> {
    spec_u32_to_le_bytes(h.version) + spec_u64_to_le_bytes(h.height) + h.prev_hash@ + h.merkle_root@
        + spec_u64_to_le_bytes(h.timestamp as u64) + spec_u32_to_le_bytes(h.difficulty)
        + spec_u32_to_le_bytes(block_type_tag(h.block_type)) + spec_u64_to_le_bytes(h.nonce)
        + h.stake_modifier@ + h.notes_root@ + h.tags_root@
}

/// The hash of a header.
pub open spec fn header_hash_spec(h: BlockHeader) -> [u8; 32] {
    sha256d_spec(header_bytes_spec(h))
}

/// The ids of a list of bundles.
pub open spec fn bundle_ids_spec(bs: Seq<ActionBundle>) -> Seq<[u8; 32]> {
    bs.map_values(|b: ActionBundle| sha256d_spec(bundle_bytes(b)))
}

/// The Merkle root of a list of bundles: the Merkle root of their ids.
pub open spec fn bundles_root_spec(bs: Seq<ActionBundle>) -> [u8; 32] {
    merkle_root_spec(bundle_ids_spec(bs))
}

/// A header's bytes are 196 long, and its nonce occupies bytes 92 to 100:
/// changing the nonce changes only those.
pub proof fn lemma_header_nonce_bytes(h: BlockHeader, n: u64)
    ensures
        header_bytes_spec(h).len() == 196,
        header_bytes_spec(BlockHeader { nonce: n, ..h })
            == header_bytes_spec(h).subrange(0, 92) + spec_u64_to_le_bytes(n) + header_bytes_spec(h).subrange(100, 196),
{
    lemma_auto_spec_u64_to_from_le_bytes();
    lemma_auto_spec_u32_to_from_le_bytes();
    let a = spec_u32_to_le_bytes(h.version) + spec_u64_to_le_bytes(h.height) + h.prev_hash@ + h.merkle_root@
        + spec_u64_to_le_bytes(h.timestamp as u64) + spec_u32_to_le_bytes(h.difficulty)
        + spec_u32_to_le_bytes(block_type_tag(h.block_type));
    let c = h.stake_modifier@ + h.notes_root@ + h.tags_root@;
    assert(a.len() == 92);
    assert(c.len() == 96);
    assert(header_bytes_spec(h) =~= a + spec_u64_to_le_bytes(h.nonce) + c);
    assert(header_bytes_spec(BlockHeader { nonce: n, ..h }) =~= a + spec_u64_to_le_bytes(n) + c);
    let full = a + spec_u64_to_le_bytes(h.nonce) + c;
    assert(full.subrange(0, 92) =~= a);
    assert(full.subrange(100, 196) =~= c);
}

impl BlockHeader {
    /// The canonical bytes of the header.
    pub fn to_bytes(&self) -> (r: Vec<u8>)
        ensures
            r@ == header_bytes_spec(*self),
    {
        let mut out: Vec<u8> = Vec::new();
        put_u32(&mut out, self.version);
        put_u64(&mut out, self.height);
        put32(&mut out, &self.prev_hash);
        put32(&mut out, &self.merkle_root);
        put_u64(&mut out, self.timestamp as u64);
        put_u32(&mut out, self.difficulty);
        let tag: u32 = match self.block_type {
            BlockType::PoW => 0,
            BlockType::PoS => 1,
        };
        put_u32(&mut out, tag);
        put_u64(&mut out, self.nonce);
        put32(&mut out, &self.stake_modifier);
        put32(&mut out, &self.notes_root);
        put32(&mut out, &self.tags_root);
        assert(out@ =~= header_bytes_spec(*self));
        out
    }

    /// SHA256d of the canonical bytes.
    pub fn hash(&self) -> (r: [u8; 32])
        ensures
            r == header_hash_spec(*self),
    {
        let bytes = self.to_bytes();
        sha256d(bytes.as_slice())
    }
}

/// Two blocks with the same header and bundles that agree one by one.
pub open spec fn block_equiv(a: Block, b: Block) -> bool {
    &&& a.header == b.header
    &&& a.compact@.len() == b.compact@.len()
    &&& forall|i: int| 0 <= i < a.compact@.len() ==> #[trigger] bundle_equiv(a.compact@[i], b.compact@[i])
}

/// Two block lists that agree block by block.
pub open spec fn blocks_equiv(a: Seq<Block>, b: Seq<Block>) -> bool {
    &&& a.len() == b.len()
    &&& forall|i: int| 0 <= i < a.len() ==> #[trigger] block_equiv(a[i], b[i])
}

impl Clone for Block {
    fn clone(&self) -> (r: Self)
        ensures
            r.header == self.header,
            r.compact@.len() == self.compact@.len(),
            forall|i: int| 0 <= i < r.compact@.len() ==> bundle_bytes(#[trigger] r.compact@[i]) == bundle_bytes(self.compact@[i]),
            block_equiv(r, *self),
    {
        let mut compact: Vec<ActionBundle> = Vec::new();
        let mut k: usize = 0;
        while k < self.compact.len()
            invariant
                0 <= k <= self.compact@.len(),
                compact@.len() == k,
                forall|i: int| 0 <= i < k ==> bundle_bytes(#[trigger] compact@[i]) == bundle_bytes(self.compact@[i]),
                forall|i: int| 0 <= i < k ==> #[trigger] bundle_equiv(compact@[i], self.compact@[i]),
            decreases self.compact@.len() - k,
        {
            compact.push(self.compact[k].clone());
            k = k + 1;
        }
        Block { header: self.header, compact }
    }
}

impl Block {
    /// The block hash: the hash of its header.
    pub fn hash(&self) -> (r: [u8; 32])
        ensures
            r == header_hash_spec(self.header),
    {
        self.header.hash()
    }

    /// The Merkle root of the bundles' ids; all zero for no bundles.
    pub fn compute_merkle_root(bundles: &[ActionBundle]) -> (r: [u8; 32])
        ensures
            r == bundles_root_spec(bundles@),
    {
        let mut ids: Vec<[u8; 32]> = Vec::new();
        let mut k: usize = 0;
        while k < bundles.len()
            invariant
                0 <= k <= bundles@.len(),
                ids@ == bundle_ids_spec(bundles@.subrange(0, k as int)),
            decreases bundles@.len() - k,
        {
            ids.push(bundles[k].id());
            k = k + 1;
            assert(ids@ =~= bundle_ids_spec(bundles@.subrange(0, k as int)));
        }
        assert(bundles@.subrange(0, bundles@.len() as int) =~= bundles@);
        merkle_root(ids.as_slice())
    }
}

} // verus!
