//! Building bundles: the emission bundle of a block reward, and outputs
//! that carry a predicate.

use vstd::prelude::*;
use vstd::bytes::{spec_u64_to_le_bytes, u64_to_le_bytes};
use vstd::string::StringSliceAdditionalSpecFns;
use crate::notes::action::{ActionBundle, CompactAction, CompactOutput, CompactSpend, conservation_spec,
    real_spends_spec, real_outputs_spec};
use crate::notes::launch::{LaunchSet, live_leaves_spec, window_root_spec, lemma_window_proof_iff_contains};
use crate::notes::pred::PredWitness;
use crate::notes::spend_proof::{SpendAuth, WindowPath, BindingSig, NoteProof, gen_h};
use crate::notes::commitment::{PedersenGenerators, commit_spec, point_of};
use crate::crypto::{point_add, point_add_spec, point_mul, point_mul_spec, scalar_add, scalar_add_spec, scalar_sub,
    scalar_sub_spec, basepoint_spec};
use crate::encode::{list32_bytes, push_hashes};
use crate::chain::blockchain::spend_transcript;
use crate::order::sort_spec;
use crate::notes::keys::{SpendKey, ScanKey, SpendPk, hash_scalar_spec};
use crate::notes::commitment::{ValueCommitment, blinding_from_seed};
use crate::notes::spend_proof::{EmissionOr, commit_with_asset, commit_with_asset_spec};
use crate::notes::pred::{Predicate, PredHeader, pred_pk_spec, pred_id_spec, pred_bytes};
use crate::notes::tree::zero32;
use crate::crypto::{basepoint_mul, basepoint_mul_spec};
use crate::hash::sha256d_spec;
use crate::bytes::{push_bytes, first16, first16_spec};

verus! {

/// The blinding derived from a seed.
pub open spec fn blind_spec(seed: Seq<u8>) -> [u8; 32] {
    hash_scalar_spec("blind".spec_bytes() + seed)
}

/// The opening of an emission: the blinding of `"emit-r" || sk || height`.
pub open spec fn emission_opening_spec(sk: [u8; 32], height: u64) -> [u8; 32] {
    blind_spec("emit-r".spec_bytes() + sk@ + spec_u64_to_le_bytes(height))
}

/// The paying output of an emission.
pub open spec fn emission_output_spec(sk: SpendKey, height: u64, reward: u64, diversifier: [u8; 16]) -> CompactOutput {
    let pk = basepoint_mul_spec(sk.sk);
    CompactOutput {
        dest: SpendPk { bytes: pk },
        eph_pk: basepoint_mul_spec(blind_spec("eph-e".spec_bytes() + diversifier@ + pk@)),
        diversifier,
        value_commitment: ValueCommitment { commitment: commit_with_asset_spec(reward, emission_opening_spec(sk.sk, height), zero32()) },
        pred: PredHeader { id: pred_pk_spec(), commit: zero32() },
    }
}

/// The decoy output of an emission: a zero-value note to a key and
/// ephemeral key derived from the opening.
pub open spec fn emission_pad_spec(r: [u8; 32]) -> CompactOutput {
    CompactOutput {
        dest: SpendPk { bytes: basepoint_mul_spec(hash_scalar_spec("spend-sk".spec_bytes() + "pad-from-open".spec_bytes() + r@)) },
        eph_pk: basepoint_mul_spec(blind_spec("pad-eph".spec_bytes() + r@)),
        diversifier: first16_spec(blind_spec("pad-d".spec_bytes() + r@)),
        value_commitment: ValueCommitment { commitment: commit_with_asset_spec(0, blind_spec("emit-pad-r".spec_bytes() + r@), zero32()) },
        pred: PredHeader { id: pred_pk_spec(), commit: zero32() },
    }
}

/// Where the paying output goes: first when the opening's first byte is even.
pub open spec fn emission_real_index(r: [u8; 32]) -> int {
    if r[0] % 2 == 0 { 0 } else { 1 }
}

fn blind_of(label: &str, a: &[u8], b: &[u8]) -> (r: [u8; 32])
    ensures
        r == blind_spec(label.spec_bytes() + a@ + b@),
{
    let mut s: Vec<u8> = Vec::new();
    push_bytes(&mut s, label.as_bytes());
    push_bytes(&mut s, a);
    push_bytes(&mut s, b);
    let r = blinding_from_seed(s.as_slice());
    assert(s@ =~= label.spec_bytes() + a@ + b@);
    r
}

/// What `emission_bundle` gives for a spend key, height, reward and
/// diversifier: version 7, two actions without spends, the paying output
/// and the decoy in the order the opening fixes, an identity fee, no
/// binding signature, and an OR proof with one branch per output.
pub open spec fn emission_bundle_shape(b: ActionBundle, dest_sk: SpendKey, height: u64, reward: u64,
    diversifier: [u8; 16]) -> bool {
    &&& b.version == 7
    &&& b.actions@.len() == 2
    &&& b.actions@[0].spend is None
    &&& b.actions@[1].spend is None
    &&& b.actions@[emission_real_index(emission_opening_spec(dest_sk.sk, height))].output
            == Some(emission_output_spec(dest_sk, height, reward, diversifier))
    &&& b.actions@[1 - emission_real_index(emission_opening_spec(dest_sk.sk, height))].output
            == Some(emission_pad_spec(emission_opening_spec(dest_sk.sk, height)))
    &&& b.fee_commitment.commitment == zero32()
    &&& b.binding is None
    &&& b.emission matches Some(e) && e.a@.len() == 2 && e.e@.len() == 2 && e.z@.len() == 2
}

/// The emission bundle of a block reward: the paying output and a decoy in
/// an order fixed by the opening, no spends, an identity fee, and an OR
/// proof that one of the two outputs opens to the reward.
pub fn emission_bundle(dest_sk: &SpendKey, scan: &ScanKey, height: u64, reward: u64, diversifier: [u8; 16]) -> (b: ActionBundle)
    ensures
        b.version == 7,
        b.actions@.len() == 2,
        b.actions@[0].spend is None,
        b.actions@[1].spend is None,
        b.actions@[emission_real_index(emission_opening_spec(dest_sk.sk, height))].output
            == Some(emission_output_spec(*dest_sk, height, reward, diversifier)),
        b.actions@[1 - emission_real_index(emission_opening_spec(dest_sk.sk, height))].output
            == Some(emission_pad_spec(emission_opening_spec(dest_sk.sk, height))),
        b.fee_commitment.commitment == zero32(),
        b.binding is None,
        b.emission matches Some(e) && e.a@.len() == 2 && e.e@.len() == 2 && e.z@.len() == 2,
        emission_bundle_shape(b, *dest_sk, height, reward, diversifier),
{
    let h = u64_to_le_bytes(height);
    let r = blind_of("emit-r", &dest_sk.sk, h.as_slice());
    let z = [0u8; 32];
    let cm = commit_with_asset(reward, &r, &z);
    let pk = dest_sk.pk();
    let eph_sk = blind_of("eph-e", &diversifier, &pk.bytes);
    let eph_pk = basepoint_mul(&eph_sk);
    let paying = CompactOutput { dest: pk, eph_pk, diversifier, value_commitment: cm, pred: PredHeader::pk() };
    let mut pad_seed: Vec<u8> = Vec::new();
    push_bytes(&mut pad_seed, "pad-from-open".as_bytes());
    push_bytes(&mut pad_seed, &r);
    let pad_sk = SpendKey::from_wallet_seed(pad_seed.as_slice());
    assert("spend-sk".spec_bytes() + pad_seed@ =~= "spend-sk".spec_bytes() + "pad-from-open".spec_bytes() + r@);
    let empty: [u8; 0] = [];
    let pad_r = blind_of("emit-pad-r", &r, &empty);
    let pad_d = blind_of("pad-d", &r, &empty);
    let pad_div = first16(&pad_d);
    let pad_eph_sk = blind_of("pad-eph", &r, &empty);
    proof {
        assert(r@ + empty@ =~= r@);
        assert("emit-pad-r".spec_bytes() + r@ + empty@ =~= "emit-pad-r".spec_bytes() + r@);
        assert("pad-d".spec_bytes() + r@ + empty@ =~= "pad-d".spec_bytes() + r@);
        assert("pad-eph".spec_bytes() + r@ + empty@ =~= "pad-eph".spec_bytes() + r@);
    }
    let pad = CompactOutput {
        dest: pad_sk.pk(),
        eph_pk: basepoint_mul(&pad_eph_sk),
        diversifier: pad_div,
        value_commitment: commit_with_asset(0, &pad_r, &z),
        pred: PredHeader::pk(),
    };
    let real_first = r[0] % 2 == 0;
    let (o0, o1, real_idx) = if real_first { (paying, pad, 0usize) } else { (pad, paying, 1usize) };
    let mut cms: Vec<[u8; 32]> = Vec::new();
    cms.push(o0.value_commitment.commitment);
    cms.push(o1.value_commitment.commitment);
    let emission = EmissionOr::prove(cms.as_slice(), real_idx, reward, &r);
    let _ = scan;
    let mut actions: Vec<CompactAction> = Vec::new();
    actions.push(CompactAction { spend: None, output: Some(o0) });
    actions.push(CompactAction { spend: None, output: Some(o1) });
    ActionBundle {
        version: 7,
        actions,
        fee_commitment: ValueCommitment::identity(),
        binding: None,
        emission: Some(emission),
    }
}

/// An output of `value` to `dest_sk`'s key that carries the predicate.
pub fn output_with_pred(dest_sk: &SpendKey, value: u64, blind: &[u8; 32], diversifier: [u8; 16], pred: &Predicate) -> (o: CompactOutput)
    ensures
        o.dest.bytes == basepoint_mul_spec(dest_sk.sk),
        o.eph_pk == basepoint_mul_spec(blind_spec("eph-p".spec_bytes() + diversifier@ + o.dest.bytes@)),
        o.diversifier == diversifier,
        o.value_commitment.commitment == commit_with_asset_spec(value, *blind, zero32()),
        *pred is Pk ==> o.pred.id == pred_pk_spec() && o.pred.commit == zero32(),
        !(*pred is Pk) ==> o.pred.id == pred_id_spec(*pred) && o.pred.commit == sha256d_spec(pred_bytes(*pred)),
{
    let z = [0u8; 32];
    let cm = commit_with_asset(value, blind, &z);
    let pk = dest_sk.pk();
    let eph_sk = blind_of("eph-p", &diversifier, &pk.bytes);
    CompactOutput {
        dest: pk,
        eph_pk: basepoint_mul(&eph_sk),
        diversifier,
        value_commitment: cm,
        pred: PredHeader::from_pred(pred),
    }
}

/// The rerandomisation of a note commitment: `C + δ·H`.
pub open spec fn rerand_spec(c: [u8; 32], delta: [u8; 32]) -> [u8; 32] {
    point_add_spec(point_of(c), point_mul_spec(delta, gen_h()))
}

/// The default generators, as values.
pub open spec fn default_gens() -> PedersenGenerators {
    PedersenGenerators { g: basepoint_spec(), h: gen_h(), a: crate::notes::spend_proof::gen_a() }
}

/// A transfer from the living window: spends the note `note_cm`, which must
/// open to `in_value` with `in_blind` and be in the window, to one output of
/// `out_value` for `out_sk`, paying `fee_value`. The spend shows its nullifier
/// and a rerandomised commitment, signs with the spend key, proves window
/// membership, and the bundle is bound by the residual blinding.
pub fn transfer_window_bundle(sk: &SpendKey, scan: &ScanKey, set: &LaunchSet, note_cm: [u8; 32], in_value: u64,
    in_blind: &[u8; 32], out_sk: &SpendKey, out_value: u64, out_blind: &[u8; 32], fee_value: u64,
    fee_blind: &[u8; 32], diversifier: [u8; 16], height: u64) -> (r: Result<ActionBundle, &'static str>)
    ensures
        in_value != (if out_value + fee_value > u64::MAX { u64::MAX as int } else { out_value + fee_value })
            ==> (r matches Err(e) && e@ == "values do not conserve"@),
        in_value == (if out_value + fee_value > u64::MAX { u64::MAX as int } else { out_value + fee_value })
            && commit_spec(in_value, *in_blind, default_gens()) != note_cm
            ==> (r matches Err(e) && e@ == "opening mismatch"@),
        in_value == (if out_value + fee_value > u64::MAX { u64::MAX as int } else { out_value + fee_value })
            && commit_spec(in_value, *in_blind, default_gens()) == note_cm
            && !live_leaves_spec(set.state()).contains(note_cm)
            ==> (r matches Err(e) && e@ == "note not in living window"@),
        in_value == (if out_value + fee_value > u64::MAX { u64::MAX as int } else { out_value + fee_value })
            && commit_spec(in_value, *in_blind, default_gens()) == note_cm
            && live_leaves_spec(set.state()).contains(note_cm)
            && commit_with_asset_spec(out_value, *out_blind, zero32()) != zero32()
            && sk.nullifier_spec(note_cm) != zero32()
            ==> r is Ok,
        r matches Err(e) ==> e@ == "values do not conserve"@ || e@ == "opening mismatch"@ || e@ == "note not in living window"@
            || (e@ == "conservation failed"@ && (commit_with_asset_spec(out_value, *out_blind, zero32()) == zero32()
                || sk.nullifier_spec(note_cm) == zero32())),
        r matches Ok(b) ==> {
            &&& conservation_spec(b)
            &&& b.version == 7
            &&& b.actions@.len() == 1
            &&& b.emission is None
            &&& b.binding is Some
            &&& b.actions@[0].spend is Some
            &&& b.actions@[0].spend->0.spend_tag == sk.nullifier_spec(note_cm)
            &&& b.actions@[0].spend->0.rerand.commitment == rerand_spec(note_cm, blind_spec("rerand".spec_bytes() + sk.sk@ + note_cm@))
            &&& b.actions@[0].spend->0.proof is Some
            &&& b.actions@[0].spend->0.proof->0.membership.note_id == note_cm
            &&& b.actions@[0].output matches Some(o) && o.dest.bytes == basepoint_mul_spec(out_sk.sk)
                && o.value_commitment.commitment == commit_with_asset_spec(out_value, *out_blind, zero32())
                && o.diversifier == diversifier
            &&& b.fee_commitment.commitment == commit_spec(fee_value, *fee_blind, default_gens())
        },
{
    let _ = scan;
    let _ = height;
    if in_value != out_value.saturating_add(fee_value) {
        return Err("values do not conserve");
    }
    let gens = PedersenGenerators::default();
    let expected = ValueCommitment::commit(in_value, in_blind, &gens);
    if !crate::bytes::bytes32_eq(&expected.commitment, &note_cm) {
        return Err("opening mismatch");
    }
    if !set.contains(note_cm) {
        return Err("note not in living window");
    }
    proof {
        lemma_window_proof_iff_contains(set.state(), note_cm);
    }
    let membership = match WindowPath::prove(set, note_cm) {
        Some(p) => p,
        None => {
            return Err("leaf missing");
        },
    };
    let mut dseed: Vec<u8> = Vec::new();
    push_bytes(&mut dseed, "rerand".as_bytes());
    push_bytes(&mut dseed, &sk.sk);
    push_bytes(&mut dseed, &note_cm);
    let delta = blinding_from_seed(dseed.as_slice());
    assert("blind".spec_bytes() + dseed@ =~= "blind".spec_bytes() + ("rerand".spec_bytes() + sk.sk@ + note_cm@));
    let base = expected.point();
    let dh = point_mul(&delta, &gens.h);
    let c_prime = ValueCommitment { commitment: point_add(&base, &dh) };
    let image = sk.nullifier(&note_cm);
    let out_cm = commit_with_asset(out_value, out_blind, &[0u8; 32]);
    let fee_c = ValueCommitment::commit(fee_value, fee_blind, &gens);
    let root = set.window_root();
    let auth = SpendAuth::sign(sk, &image, &root, &c_prime.commitment);
    let sum_in = scalar_add(in_blind, &delta);
    let less_out = scalar_sub(&sum_in, out_blind);
    let r_bind = scalar_sub(&less_out, fee_blind);
    let mut outs: Vec<[u8; 32]> = Vec::new();
    outs.push(out_cm.commitment);
    let mut transcript: Vec<u8> = Vec::new();
    push_bytes(&mut transcript, &image);
    push_hashes(&mut transcript, outs.as_slice());
    push_bytes(&mut transcript, &fee_c.commitment);
    push_bytes(&mut transcript, &root);
    let binding = BindingSig::sign(&r_bind, transcript.as_slice());
    let proof = NoteProof { auth, membership, binding };
    let out_pk = out_sk.pk();
    let mut eseed: Vec<u8> = Vec::new();
    push_bytes(&mut eseed, "eph".as_bytes());
    push_bytes(&mut eseed, &diversifier);
    push_bytes(&mut eseed, &image);
    let eph_sk = blinding_from_seed(eseed.as_slice());
    let eph_pk = basepoint_mul(&eph_sk);
    let mut actions: Vec<CompactAction> = Vec::new();
    actions.push(CompactAction {
        spend: Some(CompactSpend {
            spend_tag: image,
            rerand: c_prime,
            proof: Some(proof),
            pred: PredHeader::pk(),
            pred_body: None,
            pred_witness: PredWitness::none(),
        }),
        output: Some(CompactOutput { dest: out_pk, eph_pk, diversifier, value_commitment: out_cm, pred: PredHeader::pk() }),
    });
    let bundle = ActionBundle {
        version: 7,
        actions,
        fee_commitment: fee_c,
        binding: Some(binding),
        emission: None,
    };
    proof {
        reveal_with_fuel(real_spends_spec, 2);
        reveal_with_fuel(real_outputs_spec, 2);
        assert(bundle.actions@.drop_last() =~= Seq::<CompactAction>::empty());
        if out_cm.commitment != zero32() && image != zero32() {
            assert(real_spends_spec(bundle.actions@).len() == 1);
            assert(real_outputs_spec(bundle.actions@).len() == 1);
        }
    }
    if !bundle.verify_conservation() {
        return Err("conservation failed");
    }
    Ok(bundle)
}

} // verus!
