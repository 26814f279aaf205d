use hybrid_chain::notes::action::ActionBundle;
use hybrid_chain::wallet::{address_from_pubkey, encode_address};
use curve25519_dalek::scalar::Scalar;
use hybrid_chain::notes::commitment::{blinding_from_seed, verify_balance, PedersenGenerators, ValueCommitment};
use hybrid_chain::notes::keys::{note_id, ScanKey, SpendKey};
use hybrid_chain::notes::launch::{LaunchSet, ProfileKind};
use hybrid_chain::notes::payout::SealedPayout;
use hybrid_chain::notes::relay::{RelayNet, StemPath};
use hybrid_chain::notes::scan::TagIndex;
use hybrid_chain::notes::spend::emission_bundle;
use hybrid_chain::notes::spend_proof::{asset_scalar, commit_with_asset, BindingSig, EmissionOr, SpendAuth, WindowPath};

fn sample_bundle(seed: &[u8]) -> ActionBundle {
    let sk = SpendKey::from_wallet_seed(seed);
    let scan = ScanKey::from_wallet_seed(seed);
    emission_bundle(&sk, &scan, 1, 5, [1u8; 16])
}

#[test]
fn ticket_string_is_not_the_spend_key() {
    let wallet = SpendKey::from_wallet_seed(b"wallet-seed-abc");
    let ticket = SpendKey::from_wallet_seed(b"miner");
    assert_ne!(wallet.pk().bytes, ticket.pk().bytes);
    assert_ne!(wallet.pk().bytes, *b"miner\0\0\0\0\0\0\0\0\0\0\0\0\0\0\0\0\0\0\0\0\0\0\0\0\0\0\0");
}

#[test]
fn one_sk_one_cm_one_nf() {
    let sk = SpendKey::from_wallet_seed(b"w");
    let a = sk.nullifier(&[1u8; 32]);
    let b = sk.nullifier(&[1u8; 32]);
    let c = sk.nullifier(&[2u8; 32]);
    assert_eq!(a, b);
    assert_ne!(a, c);
    let other = SpendKey::from_wallet_seed(b"other");
    assert_ne!(a, other.nullifier(&[1u8; 32]));
}

#[test]
fn note_id_binds_its_inputs() {
    let pk = SpendKey::from_wallet_seed(b"n").pk();
    let a = note_id(&[1u8; 32], &pk, &[0u8; 32]);
    assert_eq!(a, note_id(&[1u8; 32], &pk, &[0u8; 32]));
    assert_ne!(a, note_id(&[2u8; 32], &pk, &[0u8; 32]));
}

#[test]
fn commitment_to_same_opening_balances() {
    let gens = PedersenGenerators::default();
    let r = blinding_from_seed(b"r1");
    let c = ValueCommitment::commit(50, &r, &gens);
    let zero = ValueCommitment::commit(0, &[0u8; 32], &gens);
    assert_eq!(zero.commitment, ValueCommitment::identity().commitment);
    assert!(verify_balance(&[c], &[c], &zero));
    let d = ValueCommitment::commit(51, &r, &gens);
    assert!(!verify_balance(&[c], &[d], &zero));
    assert_eq!(c.add(&zero).commitment, c.commitment);
    assert_eq!(c.sub(&c).commitment, [0u8; 32]);
}

#[test]
fn asset_lives_in_the_point() {
    assert_eq!(asset_scalar(&[0u8; 32]), [0u8; 32]);
    assert_ne!(asset_scalar(&[3u8; 32]), [0u8; 32]);
    let r = blinding_from_seed(b"a");
    let native = commit_with_asset(10, &r, &[0u8; 32]);
    let other = commit_with_asset(10, &r, &[3u8; 32]);
    assert_ne!(native.commitment, other.commitment);
    let plain = ValueCommitment::commit(10, &r, &PedersenGenerators::default());
    assert_eq!(native.commitment, plain.commitment);
}

#[test]
fn auth_rejects_wrong_sk() {
    let sk = SpendKey::from_wallet_seed(b"owner");
    let nf = sk.nullifier(&[9u8; 32]);
    let live = [3u8; 32];
    let cp = [4u8; 32];
    let p = SpendAuth::sign(&sk, &nf, &live, &cp);
    assert!(p.verify(&nf, &live, &cp));
    let mut bad = p;
    bad.dest = SpendKey::from_wallet_seed(b"other").pk();
    assert!(!bad.verify(&nf, &live, &cp));
}

#[test]
fn binding_signature_checks_balance() {
    let gens = PedersenGenerators::default();
    let r = blinding_from_seed(b"bind");
    let input = ValueCommitment::commit(7, &r, &gens);
    let fee = ValueCommitment::commit(7, &[0u8; 32], &gens);
    let sig = BindingSig::sign(&r, b"t");
    assert!(sig.verify(&[input], &[], &fee, b"t"));
    assert!(!sig.verify(&[input], &[], &fee, b"u"));
}

#[test]
fn emission_or_proves_the_reward() {
    let b = sample_bundle(b"emit");
    let cms = b.output_commitments();
    let e = b.emission.as_ref().expect("emission");
    assert!(e.verify(&cms, 5));
    assert!(!e.verify(&cms, 6));
    let r = blinding_from_seed(b"x");
    let c = commit_with_asset(9, &r, &[0u8; 32]);
    let p = EmissionOr::prove(&[c.commitment], 0, 9, &r);
    assert!(p.verify(&[c.commitment], 9));
}

#[test]
fn emission_bundle_shape() {
    let b = sample_bundle(b"shape");
    assert_eq!(b.version, 7);
    assert_eq!(b.actions.len(), 2);
    assert!(b.is_emission());
    assert!(b.verify_conservation());
    assert_eq!(b.real_outputs().len(), 2);
    assert_eq!(b.fee_commitment.commitment, [0u8; 32]);
}

#[test]
fn dest_is_not_the_ticket() {
    let p = SealedPayout::from_wallet_seed(b"wallet-secret", 1);
    assert_ne!(&p.dest.bytes[..], b"wallet-secret");
    assert_ne!(&p.dest.bytes[..], b"miner");
    assert_eq!(p.dest.bytes, p.spend.pk().bytes);
}

#[test]
fn window_path_only_on_live_set() {
    let mut set = LaunchSet::standard();
    let id = [7u8; 32];
    set.append(id);
    let p = WindowPath::prove(&set, id).unwrap();
    assert!(p.verify(set.window_root()));
    assert!(WindowPath::prove(&set, [8u8; 32]).is_none());
}

#[test]
fn stem_then_fluff_does_not_expose_origin_as_first_peer() {
    let b = sample_bundle(b"s");
    let path = StemPath::from_secret(b"wallet-1", 3);
    assert_ne!(path.hops[0], path.origin);
    let mut net = RelayNet::new();
    net.ingest_stem(b"wallet-1", b, 3);
    assert_eq!(net.stemming(), 1);
    assert!(net.fluff_pool().is_empty());
    assert!(net.tick().is_empty());
    assert!(net.tick().is_empty());
    let out = net.tick();
    assert_eq!(out.len(), 1);
    assert_eq!(net.fluff_pool().len(), 1);
}

#[test]
fn relay_drops_seen_bundles() {
    let b = sample_bundle(b"dup");
    let id = b.id();
    let mut net = RelayNet::new();
    net.ingest_stem(b"k", b.clone(), 0);
    net.ingest_stem(b"k", b, 2);
    assert_eq!(net.stemming(), 1);
    let out = net.tick();
    assert_eq!(out.len(), 1);
    assert_eq!(out[0].id(), id);
    assert_eq!(net.stemming(), 0);
    let path = StemPath::from_secret(b"k", 0);
    assert_eq!(path.hops.len(), 1);
    assert_eq!(path.fluff_peer, path.hops[0]);
}

#[test]
fn two_outputs_do_not_share_a_fixed_counter_tag() {
    let sk = SpendKey::from_wallet_seed(b"w");
    let scan = ScanKey::from_wallet_seed(b"s");
    let a = emission_bundle(&sk, &scan, 1, 5, [1u8; 16]);
    let b = emission_bundle(&sk, &scan, 1, 5, [2u8; 16]);
    let ta = scan.tag(&a.real_outputs()[0].eph_pk, &a.real_outputs()[0].diversifier);
    let tb = scan.tag(&b.real_outputs()[0].eph_pk, &b.real_outputs()[0].diversifier);
    assert_ne!(ta, tb);
}

#[test]
fn tag_index_files_outputs_by_tag() {
    let sk = SpendKey::from_wallet_seed(b"w");
    let scan = ScanKey::from_wallet_seed(b"s");
    let b = emission_bundle(&sk, &scan, 4, 5, [1u8; 16]);
    let mut idx = TagIndex::new();
    idx.ingest_for_scan(4, &b, &scan);
    let outs = b.real_outputs();
    let t0 = scan.tag(&outs[0].eph_pk, &outs[0].diversifier);
    let hits = idx.lookup(&t0);
    assert_eq!(hits.len(), 1);
    assert_eq!(hits[0].height, 4);
    assert_eq!(hits[0].commitment, outs[0].value_commitment.commitment);
    assert!(idx.lookup(&[0u8; 32]).is_empty());
}

#[test]
fn balance_holds() {
    let gens = PedersenGenerators::default();
    let r1 = blinding_from_seed(b"r1");
    let r2 = blinding_from_seed(b"r2");
    let r_out = blinding_from_seed(b"rout");
    let r_fee = (Scalar::from_bytes_mod_order(r1) + Scalar::from_bytes_mod_order(r2)
        - Scalar::from_bytes_mod_order(r_out)).to_bytes();
    let in1 = ValueCommitment::commit(50, &r1, &gens);
    let in2 = ValueCommitment::commit(50, &r2, &gens);
    let out = ValueCommitment::commit(90, &r_out, &gens);
    let fee = ValueCommitment::commit(10, &r_fee, &gens);
    assert!(verify_balance(&[in1, in2], &[out], &fee));
    let short = ValueCommitment::commit(9, &r_fee, &gens);
    assert!(!verify_balance(&[in1, in2], &[out], &short));
}

#[test]
fn test_address_derivation() {
    let pubkey = b"test_public_key_bytes";
    let addr = address_from_pubkey(pubkey);
    assert_eq!(addr.len(), 20);
    let encoded = encode_address(&addr);
    assert!(encoded.starts_with("HYB"));
}

#[test]
fn address_is_truncated_digest_in_lowercase_hex() {
    let addr = address_from_pubkey(b"");
    let empty_digest: [u8; 20] = [
        0xe3, 0xb0, 0xc4, 0x42, 0x98, 0xfc, 0x1c, 0x14, 0x9a, 0xfb,
        0xf4, 0xc8, 0x99, 0x6f, 0xb9, 0x24, 0x27, 0xae, 0x41, 0xe4,
    ];
    assert_eq!(addr, empty_digest);
    assert_eq!(encode_address(&addr), "HYBe3b0c44298fc1c149afbf4c8996fb92427ae41e4");
    let mut other = [0u8; 20];
    other[0] = 0xab;
    other[19] = 0x01;
    assert_eq!(encode_address(&other), format!("HYBab{}01", "0".repeat(36)));
}

#[test]
fn window_root_ignores_arrival_order() {
    let mut a = LaunchSet::standard();
    let mut b = LaunchSet::standard();
    for i in 1u8..=5 {
        a.append([i; 32]);
    }
    for i in (1u8..=5).rev() {
        b.append([i; 32]);
    }
    assert_ne!(a.live_leaves(), b.live_leaves());
    assert_eq!(a.window_root(), b.window_root());
}

#[test]
fn append_seals_at_cap() {
    let mut set = LaunchSet::new(ProfileKind::Constrained);
    let cap = ProfileKind::Constrained.cap();
    for i in 0..cap - 1 {
        set.append([i as u8; 32]);
        assert_eq!(set.live_leaves().len(), i + 1);
        assert_eq!(set.sealed_epochs(), 0);
    }
    set.append([0xEE; 32]);
    assert_eq!(set.sealed_epochs(), 1);
    assert!(set.contains([0xEE; 32]));
    assert_eq!(set.live_leaves().len(), cap);
    set.append([0xEF; 32]);
    assert!(set.contains([0xEF; 32]));
    assert_eq!(set.live_leaves().len(), cap + 1);
}
