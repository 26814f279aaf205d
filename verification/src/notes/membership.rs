//! Inclusion against the note tree. The wire object is a path, not a decoy list.

use vstd::prelude::*;
use crate::notes::tree::{NoteCommitmentTree, proof_path, verify_inclusion_spec, merkle_root_spec, lemma_proof_roundtrip};

verus! {

/// A leaf, its position, and its sibling path.
#[derive(Clone, Debug)]
pub struct MembershipProof {
    pub leaf: [u8; 32],
    pub index: usize,
    pub path: Vec<[u8; 32]>,
}

impl MembershipProof {
    /// The proof for leaf `index` of the tree; `None` when there is no such leaf.
    pub fn prove(tree: &NoteCommitmentTree, index: usize) -> (r: Option<Self>)
        ensures
            index >= tree@.len() ==> r is None,
            index < tree@.len() ==> (r matches Some(p) && p.leaf == tree@[index as int] && p.index == index
                && p.path@ == proof_path(tree@, index as int)),
    {
        let leaves = tree.leaves();
        if index >= leaves.len() {
            return None;
        }
        let leaf = leaves[index];
        match tree.merkle_proof(index) {
            Some(path) => Some(MembershipProof { leaf, index, path }),
            None => None,
        }
    }

    /// Whether the path folds the leaf up to `root`.
    pub fn verify(&self, root: [u8; 32]) -> (r: bool)
        ensures
            r == verify_inclusion_spec(self.leaf, self.index as int, self.path@, root),
    {
        NoteCommitmentTree::verify_inclusion(self.leaf, self.index, self.path.as_slice(), root)
    }
}

/// Law: a proof that `prove` gives verifies against the tree's root.
pub proof fn lemma_prove_then_verify(tree: NoteCommitmentTree, p: MembershipProof)
    requires
        p.index < tree@.len(),
        p.leaf == tree@[p.index as int],
        p.path@ == proof_path(tree@, p.index as int),
    ensures
        verify_inclusion_spec(p.leaf, p.index as int, p.path@, merkle_root_spec(tree@)),
{
    lemma_proof_roundtrip(tree@, p.index as int);
}

} // verus!
