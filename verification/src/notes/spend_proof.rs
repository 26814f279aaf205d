//! Spend proof objects: spend authorisation (Schnorr by the note's key),
//! window membership, the binding signature, and the emission OR proof.

use vstd::prelude::*;
use vstd::bytes::{spec_u64_to_le_bytes, u64_to_le_bytes};
use vstd::string::StringSliceAdditionalSpecFns;
use crate::notes::keys::{SpendKey, SpendPk, hash_scalar, hash_scalar_spec, pk_point_spec};
use crate::notes::launch::{LaunchSet, LaunchState, live_leaves_spec};
use crate::notes::tree::{NoteCommitmentTree, proof_path, verify_inclusion_spec, copy_hashes, zero32};
use crate::notes::commitment::{ValueCommitment, PedersenGenerators, point_of, sum_points, point_from_label_spec,
    blinding_from_seed};
use crate::crypto::{is_point_spec, basepoint_spec, basepoint_mul, basepoint_mul_spec, point_mul, point_mul_spec,
    point_add, point_add_spec, point_sub, point_sub_spec, scalar_add, scalar_add_spec, scalar_sub, scalar_sub_spec,
    scalar_mul, scalar_mul_spec, scalar_from_u64, scalar_from_u64_spec, ristretto_identity};
use crate::encode::{list32_bytes, push_hashes};
use crate::bytes::{push_bytes, bytes32_eq};
use crate::order::sort_spec;

verus! {

/// The value generator `G` of the default generators.
pub open spec fn gen_g() -> [u8; 32] {
    basepoint_spec()
}

/// The blinding generator `H` of the default generators.
pub open spec fn gen_h() -> [u8; 32] {
    point_from_label_spec("hybrid-chain-pedersen-H".spec_bytes())
}

/// The asset generator `A` of the default generators.
pub open spec fn gen_a() -> [u8; 32] {
    point_from_label_spec("hybrid-chain-pedersen-A".spec_bytes())
}

/// Schnorr signature by the note's spend key over `nf || live_root || C′`.
#[derive(Clone, Copy, Debug)]
pub struct SpendAuth {
    pub dest: SpendPk,
    pub r: [u8; 32],
    pub s: [u8; 32],
}

/// The nonce of a spend signature: the scalar of `"auth-k" || sk || nf || live_root || C′`.
pub open spec fn auth_nonce_spec(sk: [u8; 32], nf: [u8; 32], live_root: [u8; 32], c_prime: [u8; 32]) -> [u8; 32] {
    hash_scalar_spec("auth-k".spec_bytes() + sk@ + nf@ + live_root@ + c_prime@)
}

/// The challenge of a spend signature: the scalar of `"auth-e" || R || nf || live_root || C′ || pk`.
pub open spec fn auth_challenge_spec(r: [u8; 32], nf: [u8; 32], live_root: [u8; 32], c_prime: [u8; 32], pk: [u8; 32]) -> [u8; 32] {
    hash_scalar_spec("auth-e".spec_bytes() + r@ + nf@ + live_root@ + c_prime@ + pk@)
}

/// What `SpendAuth::verify` decides: `s·G == R + e·P`.
pub open spec fn auth_verify_spec(a: SpendAuth, nf: [u8; 32], live_root: [u8; 32], c_prime: [u8; 32]) -> bool {
    basepoint_mul_spec(a.s) == point_add_spec(
        point_of(a.r),
        point_mul_spec(auth_challenge_spec(a.r, nf, live_root, c_prime, a.dest.bytes), pk_point_spec(a.dest.bytes)),
    )
}

fn cat5(a: &[u8], b: &[u8], c: &[u8], d: &[u8], e: &[u8]) -> (r: Vec<u8>)
    ensures
        r@ == a@ + b@ + c@ + d@ + e@,
{
    let mut buf: Vec<u8> = Vec::new();
    push_bytes(&mut buf, a);
    push_bytes(&mut buf, b);
    push_bytes(&mut buf, c);
    push_bytes(&mut buf, d);
    push_bytes(&mut buf, e);
    assert(buf@ =~= a@ + b@ + c@ + d@ + e@);
    buf
}

impl SpendAuth {
    /// Signs with the spend key: `R = k·G`, `s = k + e·sk`.
    pub fn sign(sk: &SpendKey, nf: &[u8; 32], live_root: &[u8; 32], c_prime: &[u8; 32]) -> (a: Self)
        ensures
            a.dest.bytes == basepoint_mul_spec(sk.sk),
            a.r == basepoint_mul_spec(auth_nonce_spec(sk.sk, *nf, *live_root, *c_prime)),
            a.s == scalar_add_spec(
                auth_nonce_spec(sk.sk, *nf, *live_root, *c_prime),
                scalar_mul_spec(auth_challenge_spec(a.r, *nf, *live_root, *c_prime, a.dest.bytes), sk.sk),
            ),
    {
        let mut pre = cat5("auth-k".as_bytes(), &sk.sk, nf, live_root, c_prime);
        assert(pre@ =~= "auth-k".spec_bytes() + sk.sk@ + nf@ + live_root@ + c_prime@);
        let k = hash_scalar(pre.as_slice());
        let r = basepoint_mul(&k);
        let pk = sk.pk();
        let mut epre = cat5("auth-e".as_bytes(), &r, nf, live_root, c_prime);
        push_bytes(&mut epre, &pk.bytes);
        assert(epre@ =~= "auth-e".spec_bytes() + r@ + nf@ + live_root@ + c_prime@ + pk.bytes@);
        let e = hash_scalar(epre.as_slice());
        let es = scalar_mul(&e, &sk.sk);
        let s = scalar_add(&k, &es);
        SpendAuth { dest: pk, r, s }
    }

    /// Checks `s·G == R + e·P` for the signed message.
    pub fn verify(&self, nf: &[u8; 32], live_root: &[u8; 32], c_prime: &[u8; 32]) -> (r: bool)
        ensures
            r == auth_verify_spec(*self, *nf, *live_root, *c_prime),
    {
        let r_pt = ValueCommitment { commitment: self.r }.point();
        let mut epre = cat5("auth-e".as_bytes(), &self.r, nf, live_root, c_prime);
        push_bytes(&mut epre, &self.dest.bytes);
        assert(epre@ =~= "auth-e".spec_bytes() + self.r@ + nf@ + live_root@ + c_prime@ + self.dest.bytes@);
        let e = hash_scalar(epre.as_slice());
        let p = self.dest.point();
        let ep = point_mul(&e, &p);
        let right = point_add(&r_pt, &ep);
        let left = basepoint_mul(&self.s);
        bytes32_eq(&left, &right)
    }
}

/// Membership of a note id in the living window.
#[derive(Debug)]
pub struct WindowPath {
    pub note_id: [u8; 32],
    pub index: usize,
    pub siblings: Vec<[u8; 32]>,
}

impl Clone for WindowPath {
    fn clone(&self) -> (r: Self)
        ensures
            r.note_id == self.note_id,
            r.index == self.index,
            r.siblings@ == self.siblings@,
    {
        WindowPath { note_id: self.note_id, index: self.index, siblings: copy_hashes(self.siblings.as_slice()) }
    }
}

impl WindowPath {
    /// The path of a note id in the window; `None` when it is not there.
    pub fn prove(set: &LaunchSet, note_id: [u8; 32]) -> (r: Option<Self>)
        ensures
            r is None <==> !sort_spec(live_leaves_spec(set.state())).contains(note_id),
            r matches Some(p) ==> p.note_id == note_id && p.index < sort_spec(live_leaves_spec(set.state())).len()
                && sort_spec(live_leaves_spec(set.state()))[p.index as int] == note_id
                && p.siblings@ == proof_path(sort_spec(live_leaves_spec(set.state())), p.index as int),
    {
        match set.prove_window(note_id) {
            Some((index, siblings)) => Some(WindowPath { note_id, index, siblings }),
            None => None,
        }
    }

    /// Whether the path folds the note id up to `live_root`.
    pub fn verify(&self, live_root: [u8; 32]) -> (r: bool)
        ensures
            r == verify_inclusion_spec(self.note_id, self.index as int, self.siblings@, live_root),
    {
        NoteCommitmentTree::verify_inclusion(self.note_id, self.index, self.siblings.as_slice(), live_root)
    }
}

/// Schnorr OR proof that one of the output commitments opens to the reward.
#[derive(Debug)]
pub struct EmissionOr {
    pub a: Vec<[u8; 32]>,
    pub e: Vec<[u8; 32]>,
    pub z: Vec<[u8; 32]>,
}

impl Clone for EmissionOr {
    fn clone(&self) -> (r: Self)
        ensures
            r.a@ == self.a@,
            r.e@ == self.e@,
            r.z@ == self.z@,
    {
        EmissionOr {
            a: copy_hashes(self.a.as_slice()),
            e: copy_hashes(self.e.as_slice()),
            z: copy_hashes(self.z.as_slice()),
        }
    }
}

/// The point a commitment must open to with no blinding: `reward·G`.
pub open spec fn emission_target_spec(reward: u64) -> [u8; 32] {
    point_mul_spec(scalar_from_u64_spec(reward), gen_g())
}

/// The challenge of an emission proof: the scalar of `"emit-chal" || a_0 || … || a_{n-1}`.
pub open spec fn emission_challenge_spec(a: Seq<[u8; 32]>) -> [u8; 32] {
    hash_scalar_spec("emit-chal".spec_bytes() + list32_bytes(a))
}

/// The simulated challenge of branch `j`.
pub open spec fn sim_e_spec(cm: [u8; 32], j: int) -> [u8; 32] {
    hash_scalar_spec("emit-sim".spec_bytes() + cm@ + spec_u64_to_le_bytes(j as u64))
}

/// The simulated response of branch `j`.
pub open spec fn sim_z_spec(cm: [u8; 32], j: int) -> [u8; 32] {
    hash_scalar_spec("emit-simz".spec_bytes() + cm@ + spec_u64_to_le_bytes(j as u64))
}

/// Branch `j` checks: `z_j·H == a_j + e_j·(C_j − target)`.
pub open spec fn branch_ok(p: EmissionOr, cms: Seq<[u8; 32]>, target: [u8; 32], j: int) -> bool {
    point_mul_spec(p.z@[j], gen_h()) == point_add_spec(
        point_of(p.a@[j]),
        point_mul_spec(p.e@[j], point_sub_spec(point_of(cms[j]), target)),
    )
}

/// The sum of the first `n` challenges, from zero.
pub open spec fn sum_scalars(es: Seq<[u8; 32]>, n: nat) -> [u8; 32]
    decreases n,
{
    if n == 0 { zero32() } else { scalar_add_spec(sum_scalars(es, (n - 1) as nat), es[n - 1]) }
}

/// The challenge minus every other branch's challenge among the first `n`.
pub open spec fn sub_others(c: [u8; 32], es: Seq<[u8; 32]>, real_idx: int, n: nat) -> [u8; 32]
    decreases n,
{
    if n == 0 {
        c
    } else {
        let prev = sub_others(c, es, real_idx, (n - 1) as nat);
        if n - 1 != real_idx { scalar_sub_spec(prev, es[n - 1]) } else { prev }
    }
}

/// What `EmissionOr::verify` decides: one branch per commitment, at least
/// one, every branch checks, and the challenges sum to the challenge.
pub open spec fn emission_verify_spec(p: EmissionOr, cms: Seq<[u8; 32]>, reward: u64) -> bool {
    &&& p.a@.len() == cms.len()
    &&& cms.len() != 0
    &&& forall|j: int| 0 <= j < cms.len() ==> #[trigger] branch_ok(p, cms, emission_target_spec(reward), j)
    &&& sum_scalars(p.e@, cms.len()) == emission_challenge_spec(p.a@)
}

/// The nonce of the real_idx branch: the scalar of `"emit-k" || r`.
pub open spec fn emission_nonce_spec(r_open: [u8; 32]) -> [u8; 32] {
    hash_scalar_spec("emit-k".spec_bytes() + r_open@)
}

fn scalar_of3(label: &str, a: &[u8; 32], j: usize) -> (r: [u8; 32])
    ensures
        r == hash_scalar_spec(label.spec_bytes() + a@ + spec_u64_to_le_bytes(j as u64)),
{
    let mut buf: Vec<u8> = Vec::new();
    push_bytes(&mut buf, label.as_bytes());
    push_bytes(&mut buf, a);
    let le = u64_to_le_bytes(j as u64);
    push_bytes(&mut buf, le.as_slice());
    assert(buf@ =~= label.spec_bytes() + a@ + spec_u64_to_le_bytes(j as u64));
    hash_scalar(buf.as_slice())
}

fn challenge_of(a: &Vec<[u8; 32]>) -> (r: [u8; 32])
    ensures
        r == emission_challenge_spec(a@),
{
    let mut buf: Vec<u8> = Vec::new();
    push_bytes(&mut buf, "emit-chal".as_bytes());
    push_hashes(&mut buf, a.as_slice());
    assert(buf@ =~= "emit-chal".spec_bytes() + list32_bytes(a@));
    hash_scalar(buf.as_slice())
}

impl EmissionOr {
    /// Proves that `cms[real_idx]` opens to `reward` with blinding `r_open`,
    /// simulating every other branch.
    pub fn prove(cms: &[[u8; 32]], real_idx: usize, reward: u64, r_open: &[u8; 32]) -> (p: Self)
        requires
            real_idx < cms@.len(),
        ensures
            p.a@.len() == cms@.len(),
            p.e@.len() == cms@.len(),
            p.z@.len() == cms@.len(),
            forall|j: int| 0 <= j < cms@.len() && j != real_idx ==> {
                &&& #[trigger] p.e@[j] == sim_e_spec(cms@[j], j)
                &&& p.z@[j] == sim_z_spec(cms@[j], j)
                &&& p.a@[j] == point_sub_spec(
                        point_mul_spec(sim_z_spec(cms@[j], j), gen_h()),
                        point_mul_spec(sim_e_spec(cms@[j], j), point_sub_spec(point_of(cms@[j]), emission_target_spec(reward))),
                    )
            },
            p.a@[real_idx as int] == point_mul_spec(emission_nonce_spec(*r_open), gen_h()),
            p.e@[real_idx as int] == sub_others(emission_challenge_spec(p.a@), p.e@, real_idx as int, cms@.len()),
            p.z@[real_idx as int] == scalar_add_spec(emission_nonce_spec(*r_open), scalar_mul_spec(p.e@[real_idx as int], *r_open)),
    {
        let gens = PedersenGenerators::default();
        let n = cms.len();
        let v = scalar_from_u64(reward);
        let target = point_mul(&v, &gens.g);
        let mut kpre: Vec<u8> = Vec::new();
        push_bytes(&mut kpre, "emit-k".as_bytes());
        push_bytes(&mut kpre, r_open);
        assert(kpre@ =~= "emit-k".spec_bytes() + r_open@);
        let k = hash_scalar(kpre.as_slice());
        let mut a: Vec<[u8; 32]> = Vec::new();
        let mut e: Vec<[u8; 32]> = Vec::new();
        let mut z: Vec<[u8; 32]> = Vec::new();
        let mut j: usize = 0;
        while j < n
            invariant
                0 <= j <= n,
                n == cms@.len(),
                real_idx < n,
                gens.valid(),
                gens.h == gen_h(),
                gens.g == gen_g(),
                target == emission_target_spec(reward),
                is_point_spec(target),
                k == emission_nonce_spec(*r_open),
                a@.len() == j,
                e@.len() == j,
                z@.len() == j,
                forall|i: int| 0 <= i < j && i != real_idx ==> {
                    &&& #[trigger] e@[i] == sim_e_spec(cms@[i], i)
                    &&& z@[i] == sim_z_spec(cms@[i], i)
                    &&& a@[i] == point_sub_spec(
                            point_mul_spec(sim_z_spec(cms@[i], i), gen_h()),
                            point_mul_spec(sim_e_spec(cms@[i], i), point_sub_spec(point_of(cms@[i]), emission_target_spec(reward))),
                        )
                },
                j > real_idx ==> a@[real_idx as int] == point_mul_spec(emission_nonce_spec(*r_open), gen_h()),
            decreases n - j,
        {
            if j == real_idx {
                a.push(point_mul(&k, &gens.h));
                e.push([0u8; 32]);
                z.push([0u8; 32]);
            } else {
                let ej = scalar_of3("emit-sim", &cms[j], j);
                let zj = scalar_of3("emit-simz", &cms[j], j);
                let c = ValueCommitment { commitment: cms[j] }.point();
                let t = point_sub(&c, &target);
                let zh = point_mul(&zj, &gens.h);
                let et = point_mul(&ej, &t);
                a.push(point_sub(&zh, &et));
                e.push(ej);
                z.push(zj);
                assert(e@[j as int] == sim_e_spec(cms@[j as int], j as int));
                assert(z@[j as int] == sim_z_spec(cms@[j as int], j as int));
                assert(c == point_of(cms@[j as int]));
            }
            j = j + 1;
        }
        let chal = challenge_of(&a);
        let mut e_real = chal;
        let mut m: usize = 0;
        while m < n
            invariant
                0 <= m <= n,
                n == cms@.len(),
                real_idx < n,
                e@.len() == n,
                e_real == sub_others(chal, e@, real_idx as int, m as nat),
            decreases n - m,
        {
            if m != real_idx {
                e_real = scalar_sub(&e_real, &e[m]);
            }
            m = m + 1;
        }
        let ghost e_before = e@;
        e.set(real_idx, e_real);
        proof {
            assert forall|mm: nat| mm <= n implies sub_others(chal, e@, real_idx as int, mm) == sub_others(chal, e_before, real_idx as int, mm) by {
                lemma_sub_others_ignores_real(chal, e_before, e@, real_idx as int, mm);
            }
        }
        let em = scalar_mul(&e_real, r_open);
        z.set(real_idx, scalar_add(&k, &em));
        EmissionOr { a, e, z }
    }

    /// Checks the proof against the output commitments and the reward.
    pub fn verify(&self, cms: &[[u8; 32]], reward: u64) -> (r: bool)
        requires
            self.a@.len() == cms@.len() ==> self.e@.len() >= cms@.len() && self.z@.len() >= cms@.len(),
        ensures
            r == emission_verify_spec(*self, cms@, reward),
    {
        let gens = PedersenGenerators::default();
        let n = cms.len();
        if self.a.len() != n || n == 0 {
            return false;
        }
        let v = scalar_from_u64(reward);
        let target = point_mul(&v, &gens.g);
        let chal = challenge_of(&self.a);
        let mut sum = [0u8; 32];
        let mut j: usize = 0;
        while j < n
            invariant
                0 <= j <= n,
                n == cms@.len(),
                self.a@.len() == n,
                self.e@.len() >= n,
                self.z@.len() >= n,
                gens.valid(),
                gens.h == gen_h(),
                target == emission_target_spec(reward),
                is_point_spec(target),
                sum == sum_scalars(self.e@, j as nat),
                forall|i: int| 0 <= i < j ==> #[trigger] branch_ok(*self, cms@, target, i),
            decreases n - j,
        {
            let zh = point_mul(&self.z[j], &gens.h);
            let aj = ValueCommitment { commitment: self.a[j] }.point();
            let c = ValueCommitment { commitment: cms[j] }.point();
            let t = point_sub(&c, &target);
            let et = point_mul(&self.e[j], &t);
            let right = point_add(&aj, &et);
            if !bytes32_eq(&zh, &right) {
                assert(!branch_ok(*self, cms@, target, j as int));
                return false;
            }
            sum = scalar_add(&sum, &self.e[j]);
            j = j + 1;
        }
        bytes32_eq(&sum, &chal)
    }
}

proof fn lemma_sub_others_ignores_real(c: [u8; 32], e1: Seq<[u8; 32]>, e2: Seq<[u8; 32]>, real_idx: int, m: nat)
    requires
        e1.len() == e2.len(),
        m <= e1.len(),
        forall|i: int| 0 <= i < e1.len() && i != real_idx ==> e1[i] == e2[i],
    ensures
        sub_others(c, e2, real_idx, m) == sub_others(c, e1, real_idx, m),
    decreases m,
{
    if m > 0 {
        lemma_sub_others_ignores_real(c, e1, e2, real_idx, (m - 1) as nat);
    }
}

/// Signature by the binding key (the residual blinding of the bundle).
#[derive(Clone, Copy, Debug)]
pub struct BindingSig {
    pub r: [u8; 32],
    pub s: [u8; 32],
}

/// The nonce of a binding signature: the blinding of `"bind-k" || r_bind || transcript`.
pub open spec fn binding_nonce_spec(r_bind: [u8; 32], transcript: Seq<u8>) -> [u8; 32] {
    hash_scalar_spec("blind".spec_bytes() + "bind-k".spec_bytes() + r_bind@ + transcript)
}

/// The challenge of a binding signature: the scalar of `"bind-e" || R || transcript`.
pub open spec fn binding_challenge_spec(r: [u8; 32], transcript: Seq<u8>) -> [u8; 32] {
    hash_scalar_spec("bind-e".spec_bytes() + r@ + transcript)
}

/// `start` minus the points of the commitments, one by one.
pub open spec fn sub_points(start: [u8; 32], cs: Seq<ValueCommitment>) -> [u8; 32]
    decreases cs.len(),
{
    if cs.len() == 0 { start } else { point_sub_spec(sub_points(start, cs.drop_last()), point_of(cs.last().commitment)) }
}

/// The binding key: the inputs' points minus the outputs' points minus the fee point.
pub open spec fn binding_key_spec(inputs: Seq<ValueCommitment>, outputs: Seq<ValueCommitment>, fee: ValueCommitment) -> [u8; 32] {
    point_sub_spec(sub_points(sum_points(inputs), outputs), point_of(fee.commitment))
}

/// What `BindingSig::verify` decides: `s·H == R + e·K` for the binding key `K`.
pub open spec fn binding_verify_spec(b: BindingSig, inputs: Seq<ValueCommitment>, outputs: Seq<ValueCommitment>,
    fee: ValueCommitment, transcript: Seq<u8>) -> bool {
    point_mul_spec(b.s, gen_h()) == point_add_spec(
        point_of(b.r),
        point_mul_spec(binding_challenge_spec(b.r, transcript), binding_key_spec(inputs, outputs, fee)),
    )
}

impl BindingSig {
    /// Signs the transcript with the binding scalar: `R = k·H`, `s = k + e·r_bind`.
    pub fn sign(r_bind: &[u8; 32], transcript: &[u8]) -> (b: Self)
        ensures
            b.r == point_mul_spec(binding_nonce_spec(*r_bind, transcript@), gen_h()),
            b.s == scalar_add_spec(
                binding_nonce_spec(*r_bind, transcript@),
                scalar_mul_spec(binding_challenge_spec(b.r, transcript@), *r_bind),
            ),
    {
        let gens = PedersenGenerators::default();
        let mut seed: Vec<u8> = Vec::new();
        push_bytes(&mut seed, "bind-k".as_bytes());
        push_bytes(&mut seed, r_bind);
        push_bytes(&mut seed, transcript);
        let k = blinding_from_seed(seed.as_slice());
        assert("blind".spec_bytes() + seed@ =~= "blind".spec_bytes() + "bind-k".spec_bytes() + r_bind@ + transcript@);
        let r = point_mul(&k, &gens.h);
        let mut epre: Vec<u8> = Vec::new();
        push_bytes(&mut epre, "bind-e".as_bytes());
        push_bytes(&mut epre, &r);
        push_bytes(&mut epre, transcript);
        assert(epre@ =~= "bind-e".spec_bytes() + r@ + transcript@);
        let e = hash_scalar(epre.as_slice());
        let er = scalar_mul(&e, r_bind);
        BindingSig { r, s: scalar_add(&k, &er) }
    }

    /// Checks the signature against the binding key of the commitments.
    pub fn verify(&self, inputs: &[ValueCommitment], outputs: &[ValueCommitment], fee: &ValueCommitment,
        transcript: &[u8]) -> (r: bool)
        ensures
            r == binding_verify_spec(*self, inputs@, outputs@, *fee, transcript@),
    {
        let gens = PedersenGenerators::default();
        let mut pk = ristretto_identity();
        let mut k: usize = 0;
        assert(sum_points(inputs@.subrange(0, 0)) == zero32()) by {
            assert(inputs@.subrange(0, 0) =~= Seq::<ValueCommitment>::empty());
        }
        while k < inputs.len()
            invariant
                0 <= k <= inputs@.len(),
                is_point_spec(pk),
                pk == sum_points(inputs@.subrange(0, k as int)),
            decreases inputs@.len() - k,
        {
            let p = inputs[k].point();
            proof {
                let s = inputs@.subrange(0, k as int + 1);
                assert(s.drop_last() =~= inputs@.subrange(0, k as int));
            }
            pk = point_add(&pk, &p);
            k = k + 1;
        }
        assert(inputs@.subrange(0, inputs@.len() as int) =~= inputs@);
        let ghost start = pk;
        let mut m: usize = 0;
        assert(outputs@.subrange(0, 0) =~= Seq::<ValueCommitment>::empty());
        while m < outputs.len()
            invariant
                0 <= m <= outputs@.len(),
                is_point_spec(pk),
                pk == sub_points(start, outputs@.subrange(0, m as int)),
            decreases outputs@.len() - m,
        {
            let p = outputs[m].point();
            proof {
                let s = outputs@.subrange(0, m as int + 1);
                assert(s.drop_last() =~= outputs@.subrange(0, m as int));
            }
            pk = point_sub(&pk, &p);
            m = m + 1;
        }
        assert(outputs@.subrange(0, outputs@.len() as int) =~= outputs@);
        let f = fee.point();
        pk = point_sub(&pk, &f);
        let mut epre: Vec<u8> = Vec::new();
        push_bytes(&mut epre, "bind-e".as_bytes());
        push_bytes(&mut epre, &self.r);
        push_bytes(&mut epre, transcript);
        assert(epre@ =~= "bind-e".spec_bytes() + self.r@ + transcript@);
        let e = hash_scalar(epre.as_slice());
        let left = point_mul(&self.s, &gens.h);
        let r_pt = ValueCommitment { commitment: self.r }.point();
        let ek = point_mul(&e, &pk);
        let right = point_add(&r_pt, &ek);
        bytes32_eq(&left, &right)
    }
}

/// The proof object attached to a spend.
#[derive(Debug)]
pub struct NoteProof {
    pub auth: SpendAuth,
    pub membership: WindowPath,
    pub binding: BindingSig,
}

impl Clone for NoteProof {
    fn clone(&self) -> (r: Self)
        ensures
            r.auth == self.auth,
            r.binding == self.binding,
            r.membership.note_id == self.membership.note_id,
            r.membership.index == self.membership.index,
            r.membership.siblings@ == self.membership.siblings@,
    {
        NoteProof { auth: self.auth, membership: self.membership.clone(), binding: self.binding }
    }
}

impl NoteProof {
    /// The spend signature, the window path and the binding signature all check.
    pub fn verify(&self, nf: &[u8; 32], c_prime: &ValueCommitment, live_root: [u8; 32], inputs: &[ValueCommitment],
        outputs: &[ValueCommitment], fee: &ValueCommitment, transcript: &[u8]) -> (r: bool)
        ensures
            r == (auth_verify_spec(self.auth, *nf, live_root, c_prime.commitment)
                && verify_inclusion_spec(self.membership.note_id, self.membership.index as int, self.membership.siblings@, live_root)
                && binding_verify_spec(self.binding, inputs@, outputs@, *fee, transcript@)),
    {
        self.auth.verify(nf, &live_root, &c_prime.commitment) && self.membership.verify(live_root)
            && self.binding.verify(inputs, outputs, fee, transcript)
    }
}

/// The asset scalar: zero for the native asset (all-zero id), else the
/// scalar of `"asset" || id`.
pub open spec fn asset_scalar_spec(asset: [u8; 32]) -> [u8; 32] {
    if asset == zero32() { zero32() } else { hash_scalar_spec("asset".spec_bytes() + asset@) }
}

/// The asset scalar of an asset id.
pub fn asset_scalar(asset: &[u8; 32]) -> (r: [u8; 32])
    ensures
        r == asset_scalar_spec(*asset),
{
    let z = [0u8; 32];
    if bytes32_eq(asset, &z) {
        z
    } else {
        let mut buf: Vec<u8> = Vec::new();
        push_bytes(&mut buf, "asset".as_bytes());
        push_bytes(&mut buf, asset);
        assert(buf@ =~= "asset".spec_bytes() + asset@);
        hash_scalar(buf.as_slice())
    }
}

/// The commitment `v·G + r·H + a·A`: the asset lives in the point.
pub open spec fn commit_with_asset_spec(value: u64, blinding: [u8; 32], asset: [u8; 32]) -> [u8; 32] {
    point_add_spec(
        point_add_spec(point_mul_spec(scalar_from_u64_spec(value), gen_g()), point_mul_spec(blinding, gen_h())),
        point_mul_spec(asset_scalar_spec(asset), gen_a()),
    )
}

/// Commits to a value of an asset under the default generators.
pub fn commit_with_asset(value: u64, blinding: &[u8; 32], asset: &[u8; 32]) -> (c: ValueCommitment)
    ensures
        c.commitment == commit_with_asset_spec(value, *blinding, *asset),
        is_point_spec(c.commitment),
{
    let gens = PedersenGenerators::default();
    let a = asset_scalar(asset);
    let v = scalar_from_u64(value);
    let vg = point_mul(&v, &gens.g);
    let rh = point_mul(blinding, &gens.h);
    let aa = point_mul(&a, &gens.asset());
    let s = point_add(&vg, &rh);
    ValueCommitment { commitment: point_add(&s, &aa) }
}

} // verus!
