//! Bounded-epoch note forest.
//!
//! The forest seals a live tree every `cap` leaves. A spend proves that its
//! leaf is in an epoch tree of fixed depth and that the epoch root is in the
//! forest commitment. Proofs are padded to fixed depths, so their size does
//! not grow with the chain.

use vstd::prelude::*;
use crate::notes::tree::{
    NoteCommitmentTree, merkle_root, merkle_path, merkle_root_spec, proof_path, verify_inclusion_spec,
    zero32, lemma_proof_roundtrip, lemma_proof_path_len, copy_hashes,
};

verus! {

/// Leaves per sealed epoch by default.
pub const EPOCH_CAP: usize = 65536;
/// Padded depth of the in-epoch path.
pub const EPOCH_DEPTH: usize = 16;
/// Padded depth of the forest path.
pub const FOREST_DEPTH: usize = 16;

/// Sealed epoch roots followed by the live tree's root when the live tree has leaves.
pub open spec fn epoch_items_spec(sealed: Seq<[u8; 32]>, live: Seq<[u8; 32]>) -> Seq<[u8; 32]> {
    if live.len() == 0 { sealed } else { sealed.push(merkle_root_spec(live)) }
}

/// Forest commitment: the live root before the first seal, else the Merkle root of the epoch items.
pub open spec fn forest_commitment_spec(sealed: Seq<[u8; 32]>, live: Seq<[u8; 32]>) -> [u8; 32] {
    if sealed.len() == 0 { merkle_root_spec(live) } else { merkle_root_spec(epoch_items_spec(sealed, live)) }
}

/// The sibling path of item `index`, empty when there is no such item.
pub open spec fn forest_path_spec(items: Seq<[u8; 32]>, index: int) -> Seq<[u8; 32]> {
    if 0 <= index < items.len() { proof_path(items, index) } else { Seq::empty() }
}

/// A path padded with zeros (or cut) to `n` nodes.
pub open spec fn pad_path(raw: Seq<[u8; 32]>, n: nat) -> Seq<[u8; 32]> {
    Seq::new(n, |i: int| if i < raw.len() { raw[i] } else { zero32() })
}

/// Number of path nodes kept within a depth.
pub open spec fn used_len(raw: Seq<[u8; 32]>, depth: nat) -> nat {
    if raw.len() <= depth { raw.len() } else { depth }
}

/// A two-level membership proof of fixed size.
#[derive(Clone, Copy, Debug)]
pub struct ScaleProof {
    pub leaf: [u8; 32],
    pub index_in_epoch: u32,
    pub path: [[u8; 32]; EPOCH_DEPTH],
    pub path_used: u8,
    pub epoch_root: [u8; 32],
    pub epoch_index: u32,
    pub epoch_path: [[u8; 32]; FOREST_DEPTH],
    pub epoch_path_used: u8,
}

/// The fields of the proof `finish_proof` builds: the leaf and its in-epoch
/// path cut or zero-padded to `EPOCH_DEPTH` nodes, the epoch root and index,
/// and the path of the epoch among the epoch items cut or zero-padded to
/// `FOREST_DEPTH` nodes, each with the number of nodes kept.
pub open spec fn finish_spec(
    p: ScaleProof,
    sealed: Seq<[u8; 32]>,
    live: Seq<[u8; 32]>,
    leaf: [u8; 32],
    index_in_epoch: u32,
    raw_path: Seq<[u8; 32]>,
    epoch_root: [u8; 32],
    epoch_index: u32,
) -> bool {
    let epoch_raw = forest_path_spec(epoch_items_spec(sealed, live), epoch_index as int);
    &&& p.leaf == leaf
    &&& p.index_in_epoch == index_in_epoch
    &&& p.path@ == pad_path(raw_path, EPOCH_DEPTH as nat)
    &&& p.path_used == used_len(raw_path, EPOCH_DEPTH as nat)
    &&& p.epoch_root == epoch_root
    &&& p.epoch_index == epoch_index
    &&& p.epoch_path@ == pad_path(epoch_raw, FOREST_DEPTH as nat)
    &&& p.epoch_path_used == used_len(epoch_raw, FOREST_DEPTH as nat)
}

/// What `ScaleProof::verify` decides.
pub open spec fn scale_verify_spec(p: ScaleProof, forest_commitment: [u8; 32]) -> bool {
    if p.path_used as int > EPOCH_DEPTH || p.epoch_path_used as int > FOREST_DEPTH {
        false
    } else if !verify_inclusion_spec(p.leaf, p.index_in_epoch as int, p.path@.subrange(0, p.path_used as int), p.epoch_root) {
        false
    } else if p.epoch_path_used == 0 {
        forest_commitment == p.epoch_root
    } else {
        verify_inclusion_spec(p.epoch_root, p.epoch_index as int, p.epoch_path@.subrange(0, p.epoch_path_used as int), forest_commitment)
    }
}

/// The first `n` nodes of a path array.
fn take_prefix(a: &[[u8; 32]], n: usize) -> (r: Vec<[u8; 32]>)
    requires
        n <= a@.len(),
    ensures
        r@ == a@.subrange(0, n as int),
{
    let mut r: Vec<[u8; 32]> = Vec::new();
    let mut k: usize = 0;
    while k < n
        invariant
            0 <= k <= n <= a@.len(),
            r@ == a@.subrange(0, k as int),
        decreases n - k,
    {
        r.push(a[k]);
        k = k + 1;
        assert(r@ =~= a@.subrange(0, k as int));
    }
    r
}

/// The path padded with zeros to 16 nodes, and how many nodes were kept.
fn pad16(raw: &Vec<[u8; 32]>) -> (r: ([[u8; 32]; 16], usize))
    ensures
        r.0@ == pad_path(raw@, 16),
        r.1 == used_len(raw@, 16),
{
    let mut path = [[0u8; 32]; 16];
    let used = if raw.len() <= 16 { raw.len() } else { 16 };
    let mut i: usize = 0;
    while i < used
        invariant
            0 <= i <= used <= 16,
            used == used_len(raw@, 16),
            path@.len() == 16,
            forall|j: int| 0 <= j < i ==> path@[j] == raw@[j],
            forall|j: int| i <= j < 16 ==> path@[j] == zero32(),
        decreases used - i,
    {
        path[i] = raw[i];
        i = i + 1;
    }
    assert(path@ =~= pad_path(raw@, 16));
    (path, used)
}

impl ScaleProof {
    /// Size in bytes of a proof on the wire; the same for every proof.
    pub fn size_bytes() -> (r: usize)
        ensures
            r == 32 + 4 + EPOCH_DEPTH * 32 + 1 + 32 + 4 + FOREST_DEPTH * 32 + 1,
    {
        32 + 4 + EPOCH_DEPTH * 32 + 1 + 32 + 4 + FOREST_DEPTH * 32 + 1
    }

    /// The leaf is in the epoch tree and the epoch root is in the forest commitment.
    pub fn verify(&self, forest_commitment: [u8; 32]) -> (r: bool)
        ensures
            r == scale_verify_spec(*self, forest_commitment),
    {
        if self.path_used as usize > EPOCH_DEPTH || self.epoch_path_used as usize > FOREST_DEPTH {
            return false;
        }
        let in_path = take_prefix(&self.path, self.path_used as usize);
        if !NoteCommitmentTree::verify_inclusion(self.leaf, self.index_in_epoch as usize, in_path.as_slice(), self.epoch_root) {
            return false;
        }
        if self.epoch_path_used == 0 {
            return crate::bytes::bytes32_eq(&forest_commitment, &self.epoch_root);
        }
        let epath = take_prefix(&self.epoch_path, self.epoch_path_used as usize);
        NoteCommitmentTree::verify_inclusion(self.epoch_root, self.epoch_index as usize, epath.as_slice(), forest_commitment)
    }
}

/// Sealed epoch roots and a live tree that is sealed every `cap` leaves.
#[derive(Debug)]
pub struct EpochForest {
    pub cap: usize,
    sealed: Vec<[u8; 32]>,
    live: NoteCommitmentTree,
}

impl EpochForest {
    /// Leaves per epoch.
    pub closed spec fn cap_spec(&self) -> usize {
        self.cap
    }

    /// Roots of the sealed epochs, oldest first.
    pub closed spec fn sealed_spec(&self) -> Seq<[u8; 32]> {
        self.sealed@
    }

    /// Leaves of the live (unsealed) epoch.
    pub closed spec fn live_spec(&self) -> Seq<[u8; 32]> {
        self.live@
    }

    /// A forest sealing every `EPOCH_CAP` leaves.
    pub fn new() -> (f: Self)
        ensures
            f.cap_spec() == EPOCH_CAP,
            f.sealed_spec() == Seq::<[u8; 32]>::empty(),
            f.live_spec() == Seq::<[u8; 32]>::empty(),
    {
        Self::with_cap(EPOCH_CAP)
    }

    /// A forest sealing every `cap` leaves.
    pub fn with_cap(cap: usize) -> (f: Self)
        requires
            cap >= 2,
        ensures
            f.cap_spec() == cap,
            f.sealed_spec() == Seq::<[u8; 32]>::empty(),
            f.live_spec() == Seq::<[u8; 32]>::empty(),
    {
        EpochForest { cap, sealed: Vec::new(), live: NoteCommitmentTree::new() }
    }

    /// The live tree.
    pub fn live(&self) -> (r: &NoteCommitmentTree)
        ensures
            r@ == self.live_spec(),
    {
        &self.live
    }

    /// Roots of the sealed epochs.
    pub fn sealed(&self) -> (r: &[[u8; 32]])
        ensures
            r@ == self.sealed_spec(),
    {
        self.sealed.as_slice()
    }

    /// Number of leaves ever appended.
    pub fn len(&self) -> (r: usize)
        requires
            self.sealed_spec().len() * self.cap_spec() + self.live_spec().len() <= usize::MAX,
        ensures
            r == self.sealed_spec().len() * self.cap_spec() + self.live_spec().len(),
    {
        let s = self.sealed.len();
        assert(s * self.cap <= usize::MAX) by (nonlinear_arith)
            requires
                s * self.cap + self.live@.len() <= usize::MAX,
                self.live@.len() >= 0,
        ;
        s * self.cap + self.live.len()
    }

    /// Appends a leaf; when the live tree reaches `cap` leaves its root is sealed.
    pub fn append(&mut self, leaf: [u8; 32])
        ensures
            final(self).cap_spec() == old(self).cap_spec(),
            old(self).live_spec().len() + 1 >= old(self).cap_spec() ==> {
                &&& final(self).sealed_spec() == old(self).sealed_spec().push(merkle_root_spec(old(self).live_spec().push(leaf)))
                &&& final(self).live_spec() == Seq::<[u8; 32]>::empty()
            },
            old(self).live_spec().len() + 1 < old(self).cap_spec() ==> {
                &&& final(self).sealed_spec() == old(self).sealed_spec()
                &&& final(self).live_spec() == old(self).live_spec().push(leaf)
            },
    {
        let n = self.live.len();
        if n >= self.cap || self.cap - n == 1 {
            let mut full = NoteCommitmentTree::new();
            std::mem::swap(&mut full, &mut self.live);
            full.append(leaf);
            let root = full.root();
            self.sealed.push(root);
        } else {
            let mut live = NoteCommitmentTree::new();
            std::mem::swap(&mut live, &mut self.live);
            live.append(leaf);
            self.live = live;
        }
    }

    fn epoch_items(&self) -> (r: Vec<[u8; 32]>)
        ensures
            r@ == epoch_items_spec(self.sealed_spec(), self.live_spec()),
    {
        let mut items = copy_hashes(self.sealed.as_slice());
        if !self.live.is_empty() {
            items.push(self.live.root());
        }
        items
    }

    /// Forest commitment.
    pub fn commitment(&self) -> (r: [u8; 32])
        ensures
            r == forest_commitment_spec(self.sealed_spec(), self.live_spec()),
    {
        if self.sealed.len() == 0 {
            return self.live.root();
        }
        let items = self.epoch_items();
        merkle_root(items.as_slice())
    }

    /// Same as `commitment`.
    pub fn root(&self) -> (r: [u8; 32])
        ensures
            r == forest_commitment_spec(self.sealed_spec(), self.live_spec()),
    {
        self.commitment()
    }

    /// Proof for leaf `index_in_live` of the live epoch; `None` when there is no such leaf.
    pub fn prove_live(&self, index_in_live: usize) -> (r: Option<ScaleProof>)
        ensures
            index_in_live >= self.live_spec().len() ==> r is None,
            index_in_live < self.live_spec().len() ==> (r matches Some(p) && finish_spec(p,
                self.sealed_spec(), self.live_spec(), self.live_spec()[index_in_live as int], index_in_live as u32,
                proof_path(self.live_spec(), index_in_live as int), merkle_root_spec(self.live_spec()),
                self.sealed_spec().len() as u32)),
    {
        if index_in_live >= self.live.len() {
            return None;
        }
        let leaf = self.live.leaves()[index_in_live];
        let raw = match self.live.merkle_proof(index_in_live) {
            Some(p) => p,
            None => return None,
        };
        let epoch_root = self.live.root();
        let epoch_index = self.sealed.len() as u32;
        Some(self.finish_proof(leaf, index_in_live as u32, raw, epoch_root, epoch_index))
    }

    /// Proof for a leaf of sealed epoch `epoch_index`, given its in-epoch path;
    /// `None` when there is no such epoch or the path does not reach its root.
    pub fn prove_sealed(
        &self,
        leaf: [u8; 32],
        index_in_epoch: u32,
        in_epoch_path: Vec<[u8; 32]>,
        epoch_index: u32,
    ) -> (r: Option<ScaleProof>)
        ensures
            r is Some <==> (epoch_index < self.sealed_spec().len() && verify_inclusion_spec(
                leaf, index_in_epoch as int, in_epoch_path@, self.sealed_spec()[epoch_index as int])),
            r matches Some(p) ==> finish_spec(p, self.sealed_spec(), self.live_spec(), leaf, index_in_epoch,
                in_epoch_path@, self.sealed_spec()[epoch_index as int], epoch_index),
    {
        if epoch_index as usize >= self.sealed.len() {
            return None;
        }
        let epoch_root = self.sealed[epoch_index as usize];
        if !NoteCommitmentTree::verify_inclusion(leaf, index_in_epoch as usize, in_epoch_path.as_slice(), epoch_root) {
            return None;
        }
        Some(self.finish_proof(leaf, index_in_epoch, in_epoch_path, epoch_root, epoch_index))
    }

    fn finish_proof(
        &self,
        leaf: [u8; 32],
        index_in_epoch: u32,
        raw_path: Vec<[u8; 32]>,
        epoch_root: [u8; 32],
        epoch_index: u32,
    ) -> (p: ScaleProof)
        ensures
            finish_spec(p, self.sealed_spec(), self.live_spec(), leaf, index_in_epoch, raw_path@, epoch_root, epoch_index),
    {
        let (path, used) = pad16(&raw_path);
        let items = self.epoch_items();
        let epoch_raw = forest_path(items.as_slice(), epoch_index as usize);
        let (epoch_path, epoch_used) = pad16(&epoch_raw);
        let p = ScaleProof {
            leaf,
            index_in_epoch,
            path,
            path_used: used as u8,
            epoch_root,
            epoch_index,
            epoch_path,
            epoch_path_used: epoch_used as u8,
        };
        p
    }
}

/// Law: a proof for a leaf of the live epoch verifies against the forest
/// commitment, while the live epoch holds at most `2^16` leaves and fewer
/// than `2^16` epochs have been sealed (the padded depths).
pub proof fn lemma_live_proof_verifies(sealed: Seq<[u8; 32]>, live: Seq<[u8; 32]>, i: int, p: ScaleProof)
    requires
        0 <= i < live.len(),
        live.len() <= 65536,
        sealed.len() < 65536,
        finish_spec(p, sealed, live, live[i], i as u32, proof_path(live, i), merkle_root_spec(live), sealed.len() as u32),
    ensures
        scale_verify_spec(p, forest_commitment_spec(sealed, live)),
{
    vstd::arithmetic::power2::lemma2_to64();
    let raw = proof_path(live, i);
    lemma_proof_path_len(live, i, 16);
    lemma_proof_roundtrip(live, i);
    assert(p.path@.subrange(0, p.path_used as int) =~= raw);
    assert(p.index_in_epoch as int == i);
    let items = epoch_items_spec(sealed, live);
    let k = sealed.len() as int;
    assert(p.epoch_index as int == k);
    assert(items[k] == merkle_root_spec(live));
    if sealed.len() == 0 {
        assert(items.len() == 1);
        assert(proof_path(items, 0).len() == 0);
    } else {
        let raw2 = proof_path(items, k);
        lemma_proof_path_len(items, k, 16);
        lemma_proof_roundtrip(items, k);
        assert(raw2.len() >= 1);
        assert(p.epoch_path@.subrange(0, p.epoch_path_used as int) =~= raw2);
    }
}

/// The sibling path of item `index` of the epoch items, empty when there is no such item.
fn forest_path(items: &[[u8; 32]], index: usize) -> (r: Vec<[u8; 32]>)
    ensures
        r@ == forest_path_spec(items@, index as int),
        index < items@.len() ==> verify_inclusion_spec(items@[index as int], index as int, r@, merkle_root_spec(items@)),
        index < items@.len() ==> r@.len() == crate::notes::tree::clog2(items@.len()),
        forall|d: nat| items@.len() <= vstd::arithmetic::power2::pow2(d) ==> r@.len() <= d,
{
    proof {
        if index < items@.len() {
            crate::notes::tree::lemma_proof_roundtrip(items@, index as int);
            crate::notes::tree::lemma_proof_path_len_exact(items@, index as int);
        }
        assert forall|d: nat| items@.len() <= vstd::arithmetic::power2::pow2(d)
            implies forest_path_spec(items@, index as int).len() <= d by {
            if index < items@.len() {
                crate::notes::tree::lemma_proof_path_len(items@, index as int, d);
            }
        }
    }
    if items.len() == 0 || index >= items.len() {
        return Vec::new();
    }
    match merkle_path(items, index) {
        Some(p) => p,
        None => Vec::new(),
    }
}

} // verus!
