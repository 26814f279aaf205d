//! Append-only binary Merkle tree of note commitments.

use vstd::prelude::*;
use crate::hash::{hash_pair, sha256d_pair};
use crate::bytes::bytes32_eq;

verus! {

/// One level padded to even length by repeating its last node.
pub open spec fn pad_level(hs: Seq<[u8; 32]>) -> Seq<[u8; 32]> {
    if hs.len() % 2 != 0 { hs.push(hs.last()) } else { hs }
}

/// The level above: each adjacent pair of the padded level, hashed.
pub open spec fn next_level(hs: Seq<[u8; 32]>) -> Seq<[u8; 32]> {
    let p = pad_level(hs);
    Seq::new(p.len() / 2, |i: int| hash_pair(p[2 * i], p[2 * i + 1]))
}

/// The all-zero 32-byte string.
pub open spec fn zero32() -> [u8; 32] {
    vstd::array::spec_array_fill_for_copy_type::<u8, 32>(0u8)
}
/// Merkle root of a list of leaves: all zero for no leaves, the leaf itself
/// for one, else the root of the level above.
pub open spec fn merkle_root_spec(hs: Seq<[u8; 32]>) -> [u8; 32]
    decreases hs.len(),
{
    if hs.len() == 0 {
        zero32()
    } else if hs.len() == 1 {
        hs[0]
    } else {
        merkle_root_spec(next_level(hs))
    }
}

/// The siblings met on the way from leaf `i` to the root.
pub open spec fn proof_path(hs: Seq<[u8; 32]>, i: int) -> Seq<[u8; 32]>
    decreases hs.len(),
{
    if hs.len() <= 1 {
        Seq::empty()
    } else {
        let p = pad_level(hs);
        let sib = if i % 2 == 0 { p[i + 1] } else { p[i - 1] };
        seq![sib] + proof_path(next_level(hs), i / 2)
    }
}

/// The node reached by hashing `h` at position `i` up along `path`.
pub open spec fn fold_path(h: [u8; 32], i: int, path: Seq<[u8; 32]>) -> [u8; 32]
    decreases path.len(),
{
    if path.len() == 0 {
        h
    } else {
        let up = if i % 2 == 0 { hash_pair(h, path[0]) } else { hash_pair(path[0], h) };
        fold_path(up, i / 2, path.drop_first())
    }
}

/// What `verify_inclusion` decides.
pub open spec fn verify_inclusion_spec(leaf: [u8; 32], index: int, path: Seq<[u8; 32]>, root: [u8; 32]) -> bool {
    fold_path(leaf, index, path) == root
}

proof fn lemma_next_level_len(hs: Seq<[u8; 32]>)
    requires
        hs.len() >= 2,
    ensures
        next_level(hs).len() < hs.len(),
        next_level(hs).len() >= 1,
        next_level(hs).len() == (hs.len() + 1) / 2,
{
}

proof fn lemma_next_level_at(hs: Seq<[u8; 32]>, i: int)
    requires
        hs.len() >= 2,
        0 <= i < hs.len(),
    ensures
        0 <= i / 2 < next_level(hs).len(),
        next_level(hs)[i / 2] == (if i % 2 == 0 {
            hash_pair(hs[i], pad_level(hs)[i + 1])
        } else {
            hash_pair(pad_level(hs)[i - 1], hs[i])
        }),
{
    let p = pad_level(hs);
    assert(p[i] == hs[i]);
    assert(p.len() % 2 == 0);
    if i % 2 == 0 {
        assert(2 * (i / 2) == i);
    } else {
        assert(2 * (i / 2) + 1 == i);
    }
}

/// Law: the path that `merkle_proof` gives for leaf `i` folds back to the root.
pub proof fn lemma_proof_roundtrip(hs: Seq<[u8; 32]>, i: int)
    requires
        0 <= i < hs.len(),
    ensures
        fold_path(hs[i], i, proof_path(hs, i)) == merkle_root_spec(hs),
    decreases hs.len(),
{
    if hs.len() <= 1 {
    } else {
        let next = next_level(hs);
        lemma_next_level_len(hs);
        lemma_next_level_at(hs, i);
        lemma_proof_roundtrip(next, i / 2);
        let p = pad_level(hs);
        let sib = if i % 2 == 0 { p[i + 1] } else { p[i - 1] };
        let path = proof_path(hs, i);
        assert(path == seq![sib] + proof_path(next, i / 2));
        assert(path.drop_first() =~= proof_path(next, i / 2));
        assert(path[0] == sib);
    }
}

proof fn lemma_fold_step(h: [u8; 32], i: int, path: Seq<[u8; 32]>, k: int)
    requires
        0 <= k < path.len(),
    ensures
        fold_path(h, i, path.skip(k)) == fold_path(
            if i % 2 == 0 { hash_pair(h, path[k]) } else { hash_pair(path[k], h) },
            i / 2,
            path.skip(k + 1),
        ),
{
    assert(path.skip(k).drop_first() =~= path.skip(k + 1));
    assert(path.skip(k)[0] == path[k]);
}

/// Builds the level above `hashes` (after padding it in place).
fn next_level_exec(hashes: &mut Vec<[u8; 32]>) -> (up: Vec<[u8; 32]>)
    requires
        old(hashes)@.len() >= 1,
    ensures
        up@ == next_level(old(hashes)@),
        final(hashes)@ == pad_level(old(hashes)@),
{
    if hashes.len() % 2 != 0 {
        let last = hashes[hashes.len() - 1];
        hashes.push(last);
    }
    let ghost p = hashes@;
    assert(p == pad_level(old(hashes)@));
    let mut up: Vec<[u8; 32]> = Vec::new();
    let mut k: usize = 0;
    let n = hashes.len() / 2;
    while k < n
        invariant
            hashes@ == p,
            p.len() % 2 == 0,
            2 * n == p.len(),
            p.len() <= usize::MAX,
            0 <= k <= n,
            up@.len() == k,
            forall|j: int| 0 <= j < k ==> up@[j] == hash_pair(p[2 * j], p[2 * j + 1]),
        decreases n - k,
    {
        let h = sha256d_pair(&hashes[2 * k], &hashes[2 * k + 1]);
        up.push(h);
        k = k + 1;
    }
    assert(up@ =~= next_level(old(hashes)@));
    up
}

/// A fresh vector holding the same 32-byte strings.
pub fn copy_hashes(leaves: &[[u8; 32]]) -> (hashes: Vec<[u8; 32]>)
    ensures
        hashes@ == leaves@,
{
    let mut hashes: Vec<[u8; 32]> = Vec::new();
    let mut k: usize = 0;
    while k < leaves.len()
        invariant
            0 <= k <= leaves@.len(),
            hashes@ == leaves@.subrange(0, k as int),
        decreases leaves@.len() - k,
    {
        hashes.push(leaves[k]);
        k = k + 1;
        assert(hashes@ =~= leaves@.subrange(0, k as int));
    }
    assert(leaves@.subrange(0, leaves@.len() as int) =~= leaves@);
    hashes
}

/// Merkle root of a list of 32-byte leaves (all zero when there are none).
pub fn merkle_root(leaves: &[[u8; 32]]) -> (r: [u8; 32])
    ensures
        r == merkle_root_spec(leaves@),
{
    if leaves.len() == 0 {
        return [0u8; 32];
    }
    let mut hashes = copy_hashes(leaves);
    while hashes.len() > 1
        invariant
            hashes@.len() >= 1,
            merkle_root_spec(hashes@) == merkle_root_spec(leaves@),
        decreases hashes@.len(),
    {
        proof {
            lemma_next_level_len(hashes@);
        }
        let up = next_level_exec(&mut hashes);
        hashes = up;
    }
    hashes[0]
}

/// The sibling path of leaf `index` in the tree over `leaves`; `None` when there is no such leaf.
pub fn merkle_path(leaves: &[[u8; 32]], index: usize) -> (r: Option<Vec<[u8; 32]>>)
    ensures
        index >= leaves@.len() ==> r is None,
        index < leaves@.len() ==> (r matches Some(p) && p@ == proof_path(leaves@, index as int)),
{
    if index >= leaves.len() {
        return None;
    }
    let mut hashes = copy_hashes(leaves);
    let mut path: Vec<[u8; 32]> = Vec::new();
    let mut i: usize = index;
    while hashes.len() > 1
        invariant
            hashes@.len() >= 1,
            i < hashes@.len(),
            proof_path(leaves@, index as int) == path@ + proof_path(hashes@, i as int),
        decreases hashes@.len(),
    {
        let ghost before = hashes@;
        proof {
            lemma_next_level_len(hashes@);
            lemma_next_level_at(hashes@, i as int);
        }
        if hashes.len() % 2 != 0 {
            let last = hashes[hashes.len() - 1];
            hashes.push(last);
        }
        assert(hashes@ == pad_level(before));
        let sibling = if i % 2 == 0 { hashes[i + 1] } else { hashes[i - 1] };
        let ghost old_path = path@;
        path.push(sibling);
        let up = next_level_exec(&mut hashes);
        assert(pad_level(hashes@) == hashes@);
        assert(up@ == next_level(before)) by {
            assert(next_level(hashes@) =~= next_level(before));
        }
        assert(sibling == (if (i as int) % 2 == 0 { pad_level(before)[i as int + 1] } else { pad_level(before)[i as int - 1] }));
        assert(proof_path(before, i as int) == seq![sibling] + proof_path(next_level(before), i as int / 2));
        assert(proof_path(before, i as int) == seq![sibling] + proof_path(up@, i as int / 2));
        assert(path@ =~= old_path + seq![sibling]);
        assert(old_path + (seq![sibling] + proof_path(up@, i as int / 2))
            =~= path@ + proof_path(up@, i as int / 2));
        hashes = up;
        i = i / 2;
    }
    assert(proof_path(hashes@, i as int) =~= Seq::<[u8; 32]>::empty());
    assert(path@ =~= path@ + Seq::<[u8; 32]>::empty());
    Some(path)
}

/// An append-only list of note commitments and the binary Merkle tree over it.
#[derive(Debug)]
pub struct NoteCommitmentTree {
    leaves: Vec<[u8; 32]>,
}

impl Clone for NoteCommitmentTree {
    fn clone(&self) -> (r: Self)
        ensures
            r@ == self@,
    {
        NoteCommitmentTree { leaves: copy_hashes(self.leaves.as_slice()) }
    }
}

impl View for NoteCommitmentTree {
    type V = Seq<[u8; 32]>;

    closed spec fn view(&self) -> Seq<[u8; 32]> {
        self.leaves@
    }
}

impl NoteCommitmentTree {
    /// An empty tree.
    pub fn new() -> (t: Self)
        ensures
            t@ == Seq::<[u8; 32]>::empty(),
    {
        NoteCommitmentTree { leaves: Vec::new() }
    }

    /// Number of leaves.
    pub fn len(&self) -> (r: usize)
        ensures
            r == self@.len(),
    {
        self.leaves.len()
    }

    /// Whether there are no leaves.
    pub fn is_empty(&self) -> (r: bool)
        ensures
            r == (self@.len() == 0),
    {
        self.leaves.len() == 0
    }

    /// The leaves in insertion order.
    pub fn leaves(&self) -> (r: &[[u8; 32]])
        ensures
            r@ == self@,
    {
        self.leaves.as_slice()
    }

    /// Appends a commitment as the next leaf.
    pub fn append(&mut self, commitment: [u8; 32])
        ensures
            final(self)@ == old(self)@.push(commitment),
    {
        self.leaves.push(commitment);
    }

    /// Merkle root of the leaves.
    pub fn root(&self) -> (r: [u8; 32])
        ensures
            r == merkle_root_spec(self@),
    {
        merkle_root(self.leaves.as_slice())
    }

    /// The sibling path of leaf `index`; `None` when there is no such leaf.
    /// A path it gives folds the leaf back to the tree's root and has
    /// `clog2(len)` nodes, so a tree of at most `2^d` leaves gives paths of
    /// at most `d` nodes.
    pub fn merkle_proof(&self, index: usize) -> (r: Option<Vec<[u8; 32]>>)
        ensures
            index >= self@.len() ==> r is None,
            index < self@.len() ==> (r matches Some(p) && p@ == proof_path(self@, index as int)),
            r matches Some(p) ==> verify_inclusion_spec(self@[index as int], index as int, p@, merkle_root_spec(self@)),
            r matches Some(p) ==> p@.len() == clog2(self@.len()),
            r matches Some(p) ==> forall|d: nat| self@.len() <= vstd::arithmetic::power2::pow2(d) ==> p@.len() <= d,
    {
        proof {
            if index < self@.len() {
                lemma_tree_proof_verifies(*self, index as int);
                lemma_proof_path_len_exact(self@, index as int);
                assert forall|d: nat| self@.len() <= vstd::arithmetic::power2::pow2(d)
                    implies proof_path(self@, index as int).len() <= d by {
                    lemma_proof_path_len(self@, index as int, d);
                }
            }
        }
        merkle_path(self.leaves.as_slice(), index)
    }

    /// Folds `leaf` at position `index` up along `path` and compares with `root`.
    pub fn verify_inclusion(leaf: [u8; 32], index: usize, path: &[[u8; 32]], root: [u8; 32]) -> (r: bool)
        ensures
            r == verify_inclusion_spec(leaf, index as int, path@, root),
    {
        let mut hash = leaf;
        let mut i: usize = index;
        let mut k: usize = 0;
        assert(path@.skip(0) =~= path@);
        while k < path.len()
            invariant
                0 <= k <= path@.len(),
                fold_path(leaf, index as int, path@) == fold_path(hash, i as int, path@.skip(k as int)),
            decreases path@.len() - k,
        {
            proof {
                lemma_fold_step(hash, i as int, path@, k as int);
            }
            if i % 2 == 0 {
                hash = sha256d_pair(&hash, &path[k]);
            } else {
                hash = sha256d_pair(&path[k], &hash);
            }
            i = i / 2;
            k = k + 1;
        }
        assert(path@.skip(k as int) =~= Seq::<[u8; 32]>::empty());
        bytes32_eq(&hash, &root)
    }
}

/// Law: every leaf of a tree is proved included against the tree's root.
pub proof fn lemma_tree_proof_verifies(t: NoteCommitmentTree, index: int)
    requires
        0 <= index < t@.len(),
    ensures
        verify_inclusion_spec(t@[index], index, proof_path(t@, index), merkle_root_spec(t@)),
{
    lemma_proof_roundtrip(t@, index);
}

/// Law: a tree of at most `2^d` leaves has sibling paths of at most `d` nodes.
pub proof fn lemma_proof_path_len(hs: Seq<[u8; 32]>, i: int, d: nat)
    requires
        hs.len() <= vstd::arithmetic::power2::pow2(d),
    ensures
        proof_path(hs, i).len() <= d,
    decreases hs.len(),
{
    if hs.len() > 1 {
        if d == 0 {
            vstd::arithmetic::power2::lemma2_to64();
        } else {
            vstd::arithmetic::power2::lemma_pow2_unfold(d);
            lemma_next_level_len(hs);
            lemma_proof_path_len(next_level(hs), i / 2, (d - 1) as nat);
        }
    }
}

/// The number of halvings, rounding up, that bring `n` down to at most one:
/// the ceiling of the base-2 logarithm of `n` for `n >= 1`, and 0 for 0.
pub open spec fn clog2(n: nat) -> nat
    decreases n,
{
    if n <= 1 { 0 } else { 1 + clog2(((n + 1) / 2) as nat) }
}

/// Law: `clog2(n)` is the ceiling of the base-2 logarithm of `n`: the least
/// `d` with `n <= 2^d`.
pub proof fn lemma_clog2_is_ceil_log2(n: nat)
    requires
        n >= 1,
    ensures
        n <= vstd::arithmetic::power2::pow2(clog2(n)),
        clog2(n) > 0 ==> vstd::arithmetic::power2::pow2((clog2(n) - 1) as nat) < n,
    decreases n,
{
    vstd::arithmetic::power2::lemma2_to64();
    if n > 1 {
        let m = ((n + 1) / 2) as nat;
        let c = clog2(m);
        lemma_clog2_is_ceil_log2(m);
        vstd::arithmetic::power2::lemma_pow2_unfold(c + 1);
        if c > 0 {
            vstd::arithmetic::power2::lemma_pow2_unfold(c);
        }
    }
}

/// Law: the sibling path of a leaf has exactly `clog2(len)` nodes, the
/// ceiling of the base-2 logarithm of the number of leaves.
pub proof fn lemma_proof_path_len_exact(hs: Seq<[u8; 32]>, i: int)
    ensures
        proof_path(hs, i).len() == clog2(hs.len()),
    decreases hs.len(),
{
    if hs.len() > 1 {
        lemma_next_level_len(hs);
        lemma_proof_path_len_exact(next_level(hs), i / 2);
    }
}

} // verus!
