use hybrid_chain::notes::epoch::{EpochForest, ScaleProof, EPOCH_DEPTH, FOREST_DEPTH};
use hybrid_chain::notes::membership::MembershipProof;
use hybrid_chain::notes::tags::SpendTagSet;
use hybrid_chain::notes::tree::{merkle_root, NoteCommitmentTree};
use hybrid_chain::consensus::pow::sha256d;

fn pair(a: &[u8; 32], b: &[u8; 32]) -> [u8; 32] {
    let mut c = a.to_vec();
    c.extend_from_slice(b);
    sha256d(&c)
}

#[test]
fn proof_roundtrip() {
    let mut t = NoteCommitmentTree::new();
    for i in 0u8..5 {
        t.append([i; 32]);
    }
    let root = t.root();
    let path = t.merkle_proof(3).unwrap();
    assert!(NoteCommitmentTree::verify_inclusion([3u8; 32], 3, &path, root));
    assert!(!NoteCommitmentTree::verify_inclusion([9u8; 32], 3, &path, root));
}

#[test]
fn empty_root_is_zero() {
    assert_eq!(NoteCommitmentTree::new().root(), [0u8; 32]);
}

#[test]
fn merkle_root_pads_odd_levels() {
    let a = [1u8; 32];
    let b = [2u8; 32];
    let c = [3u8; 32];
    assert_eq!(merkle_root(&[a]), a);
    assert_eq!(merkle_root(&[a, b]), pair(&a, &b));
    let ab = pair(&a, &b);
    let cc = pair(&c, &c);
    assert_eq!(merkle_root(&[a, b, c]), pair(&ab, &cc));
}

#[test]
fn every_leaf_proves() {
    let mut t = NoteCommitmentTree::new();
    for i in 0u8..7 {
        t.append([i; 32]);
    }
    for i in 0..7usize {
        let p = t.merkle_proof(i).unwrap();
        assert!(NoteCommitmentTree::verify_inclusion([i as u8; 32], i, &p, t.root()));
    }
    assert!(t.merkle_proof(7).is_none());
}

#[test]
fn proves_existing_leaf_only() {
    let mut t = NoteCommitmentTree::new();
    t.append([1u8; 32]);
    t.append([2u8; 32]);
    let p = MembershipProof::prove(&t, 1).unwrap();
    assert!(p.verify(t.root()));
    assert!(MembershipProof::prove(&t, 9).is_none());
}

#[test]
fn rejects_duplicate() {
    let mut set = SpendTagSet::new();
    let t = [1u8; 32];
    assert!(set.insert(t).is_ok());
    assert!(set.insert(t).is_err());
    assert_eq!(set.len(), 1);
}

#[test]
fn tag_root_is_order_independent() {
    let mut a = SpendTagSet::new();
    let mut b = SpendTagSet::new();
    assert_eq!(a.root(), [0u8; 32]);
    a.insert([5u8; 32]).unwrap();
    a.insert([1u8; 32]).unwrap();
    b.insert([1u8; 32]).unwrap();
    b.insert([5u8; 32]).unwrap();
    assert_eq!(a.root(), b.root());
    let mut cat = [1u8; 32].to_vec();
    cat.extend_from_slice(&[5u8; 32]);
    assert_eq!(a.root(), sha256d(&cat));
    assert!(a.contains(&[5u8; 32]));
    assert!(!a.contains(&[2u8; 32]));
    assert_eq!(a.insert([5u8; 32]), Err("duplicate spend tag"));
}

#[test]
fn derive_is_deterministic() {
    let a = SpendTagSet::derive(&[9u8; 32], &[3u8; 32]);
    let b = SpendTagSet::derive(&[9u8; 32], &[3u8; 32]);
    assert_eq!(a, b);
    let c = SpendTagSet::derive(&[8u8; 32], &[3u8; 32]);
    assert_ne!(a, c);
    let mut pre = b"spend-tag".to_vec();
    pre.extend_from_slice(&[9u8; 32]);
    pre.extend_from_slice(&[3u8; 32]);
    assert_eq!(a, sha256d(&pre));
}

#[test]
fn proof_size_is_constant() {
    assert_eq!(ScaleProof::size_bytes(), 32 + 4 + 512 + 1 + 32 + 4 + 512 + 1);
}

#[test]
fn live_proof_before_first_seal_matches_tree_root() {
    let mut f = EpochForest::with_cap(8);
    f.append([1u8; 32]);
    f.append([2u8; 32]);
    assert_eq!(f.commitment(), f.live().root());
    let p = f.prove_live(1).unwrap();
    assert!(p.verify(f.commitment()));
}

#[test]
fn seal_keeps_fixed_layout() {
    let mut f = EpochForest::with_cap(2);
    f.append([1u8; 32]);
    f.append([2u8; 32]);
    f.append([3u8; 32]);
    assert_eq!(f.sealed().len(), 1);
    let live = f.prove_live(0).unwrap();
    assert!(live.verify(f.commitment()));
    assert_eq!(live.path.len(), EPOCH_DEPTH);
    assert_eq!(live.epoch_path.len(), FOREST_DEPTH);
}

#[test]
fn sealed_proof_and_len() {
    let mut f = EpochForest::with_cap(2);
    f.append([1u8; 32]);
    f.append([2u8; 32]);
    f.append([3u8; 32]);
    assert_eq!(f.len(), 3);
    let mut t = NoteCommitmentTree::new();
    t.append([1u8; 32]);
    t.append([2u8; 32]);
    assert_eq!(f.sealed()[0], t.root());
    let path = t.merkle_proof(1).unwrap();
    let p = f.prove_sealed([2u8; 32], 1, path.clone(), 0).unwrap();
    assert!(p.verify(f.commitment()));
    assert!(f.prove_sealed([9u8; 32], 1, path, 0).is_none());
    assert!(f.prove_live(1).is_none());
}

#[test]
fn proof_length_is_ceiling_log2() {
    let expected = [(1usize, 0usize), (2, 1), (3, 2), (4, 2), (5, 3), (8, 3), (9, 4)];
    for (n, len) in expected {
        let mut t = NoteCommitmentTree::new();
        for i in 0..n {
            t.append([i as u8; 32]);
        }
        for i in 0..n {
            assert_eq!(t.merkle_proof(i).unwrap().len(), len);
        }
    }
}
