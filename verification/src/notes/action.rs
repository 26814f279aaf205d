//! One action type. Dest lives on outputs only.
//! Predicates ride on the same bundle.

use vstd::prelude::*;
use vstd::bytes::{spec_u32_to_le_bytes, spec_u64_to_le_bytes};
use crate::notes::commitment::ValueCommitment;
use crate::notes::keys::SpendPk;
use crate::notes::pred::{Predicate, PredHeader, PredWitness, PredContext, pred_bytes, put_pred, known_id,
    known_id_spec, pred_pk, pred_pk_spec, verify_pred, verify_pred_spec, result_matches};
use crate::notes::spend_proof::{BindingSig, EmissionOr, NoteProof, SpendAuth, WindowPath};
use crate::notes::tree::zero32;
use crate::encode::{put_u32, put_u64, put_u8, put32, put_list32, put_bytes_list, list32_bytes};
use crate::hash::{sha256d, sha256d_spec};
use crate::bytes::{bytes32_eq, push_bytes};

verus! {

/// Actions a bundle is padded to.
pub const BUNDLE_PAD: usize = 2;

/// The spend half of an action.
#[derive(Debug)]
pub struct CompactSpend {
    pub spend_tag: [u8; 32],
    pub rerand: ValueCommitment,
    pub proof: Option<NoteProof>,
    pub pred: PredHeader,
    pub pred_body: Option<Predicate>,
    pub pred_witness: PredWitness,
}

/// The output half of an action.
#[derive(Clone, Copy, Debug)]
pub struct CompactOutput {
    pub dest: SpendPk,
    pub eph_pk: [u8; 32],
    pub diversifier: [u8; 16],
    pub value_commitment: ValueCommitment,
    pub pred: PredHeader,
}

/// A spend, an output, or both.
#[derive(Debug)]
pub struct CompactAction {
    pub spend: Option<CompactSpend>,
    pub output: Option<CompactOutput>,
}

/// A bundle of actions with its fee commitment and proofs.
#[derive(Debug)]
pub struct ActionBundle {
    pub version: u32,
    pub actions: Vec<CompactAction>,
    pub fee_commitment: ValueCommitment,
    pub binding: Option<BindingSig>,
    pub emission: Option<EmissionOr>,
}

/// A note entering the living set: commitment and predicate header.
#[derive(Clone, Copy, Debug)]
pub struct LiveNote {
    pub cm: [u8; 32],
    pub pred: [u8; 32],
    pub pred_commit: [u8; 32],
}

/// Whether a commitment is the identity (all-zero encoding).
pub open spec fn is_identity(c: ValueCommitment) -> bool {
    c.commitment == zero32()
}

/// The outputs of the actions whose commitment is not the identity, in order.
pub open spec fn real_outputs_spec(acts: Seq<CompactAction>) -> Seq<CompactOutput>
    decreases acts.len(),
{
    if acts.len() == 0 {
        Seq::empty()
    } else {
        let prev = real_outputs_spec(acts.drop_last());
        match acts.last().output {
            Some(o) => if !is_identity(o.value_commitment) { prev.push(o) } else { prev },
            None => prev,
        }
    }
}

/// The spends of the actions whose tag is not all zero, in order.
pub open spec fn real_spends_spec(acts: Seq<CompactAction>) -> Seq<CompactSpend>
    decreases acts.len(),
{
    if acts.len() == 0 {
        Seq::empty()
    } else {
        let prev = real_spends_spec(acts.drop_last());
        match acts.last().spend {
            Some(s) => if s.spend_tag != zero32() { prev.push(s) } else { prev },
            None => prev,
        }
    }
}

/// A bundle that spends nothing and creates outputs: an emission.
pub open spec fn is_emission_spec(acts: Seq<CompactAction>) -> bool {
    real_spends_spec(acts).len() == 0 && real_outputs_spec(acts).len() != 0
}

/// What `verify_conservation` decides: an emission needs an identity fee;
/// a spending bundle needs a binding signature; both need an output.
pub open spec fn conservation_spec(b: ActionBundle) -> bool {
    if real_spends_spec(b.actions@).len() == 0 {
        real_outputs_spec(b.actions@).len() != 0 && is_identity(b.fee_commitment)
    } else {
        b.binding is Some && real_outputs_spec(b.actions@).len() != 0
    }
}

/// `None` as byte `0`, `Some(x)` as byte `1` followed by `x`.
pub open spec fn opt_bytes(present: bool, inner: Seq<u8>) -> Seq<u8> {
    if present { seq![1u8] + inner } else { seq![0u8] }
}

/// Bytes of a predicate header.
pub open spec fn header_bytes(h: PredHeader) -> Seq<u8> {
    h.id@ + h.commit@
}

/// Bytes of a witness.
pub open spec fn witness_bytes(w: PredWitness) -> Seq<u8> {
    spec_u64_to_le_bytes(w.keys@.len() as u64) + w.keys@ + spec_u64_to_le_bytes(w.fill@.len() as u64) + w.fill@
}

/// Bytes of a note proof.
pub open spec fn note_proof_bytes(p: NoteProof) -> Seq<u8> {
    p.auth.dest.bytes@ + p.auth.r@ + p.auth.s@ + p.membership.note_id@
        + spec_u64_to_le_bytes(p.membership.index as u64) + spec_u64_to_le_bytes(p.membership.siblings@.len() as u64)
        + list32_bytes(p.membership.siblings@) + p.binding.r@ + p.binding.s@
}

/// Bytes of a spend.
pub open spec fn spend_bytes(s: CompactSpend) -> Seq<u8> {
    s.spend_tag@ + s.rerand.commitment@
        + opt_bytes(s.proof is Some, match s.proof { Some(p) => note_proof_bytes(p), None => Seq::empty() })
        + header_bytes(s.pred)
        + opt_bytes(s.pred_body is Some, match s.pred_body { Some(p) => pred_bytes(p), None => Seq::empty() })
        + witness_bytes(s.pred_witness)
}

/// Bytes of an output.
pub open spec fn output_bytes(o: CompactOutput) -> Seq<u8> {
    o.dest.bytes@ + o.eph_pk@ + o.diversifier@ + o.value_commitment.commitment@ + header_bytes(o.pred)
}

/// Bytes of an action.
pub open spec fn action_bytes(a: CompactAction) -> Seq<u8> {
    opt_bytes(a.spend is Some, match a.spend { Some(s) => spend_bytes(s), None => Seq::empty() })
        + opt_bytes(a.output is Some, match a.output { Some(o) => output_bytes(o), None => Seq::empty() })
}

/// Bytes of a list of actions, without the count.
pub open spec fn actions_bytes(acts: Seq<CompactAction>) -> Seq<u8>
    decreases acts.len(),
{
    if acts.len() == 0 { Seq::empty() } else { actions_bytes(acts.drop_last()) + action_bytes(acts.last()) }
}

/// Bytes of an emission proof.
pub open spec fn emission_bytes(e: EmissionOr) -> Seq<u8> {
    spec_u64_to_le_bytes(e.a@.len() as u64) + list32_bytes(e.a@) + spec_u64_to_le_bytes(e.e@.len() as u64)
        + list32_bytes(e.e@) + spec_u64_to_le_bytes(e.z@.len() as u64) + list32_bytes(e.z@)
}

/// The canonical bytes of a bundle.
pub open spec fn bundle_bytes(b: ActionBundle) -> Seq<u8> {
    spec_u32_to_le_bytes(b.version) + spec_u64_to_le_bytes(b.actions@.len() as u64) + actions_bytes(b.actions@)
        + b.fee_commitment.commitment@
        + opt_bytes(b.binding is Some, match b.binding { Some(x) => x.r@ + x.s@, None => Seq::empty() })
        + opt_bytes(b.emission is Some, match b.emission { Some(e) => emission_bytes(e), None => Seq::empty() })
}

fn put_header(out: &mut Vec<u8>, h: &PredHeader)
    ensures
        final(out)@ == old(out)@ + header_bytes(*h),
{
    put32(out, &h.id);
    put32(out, &h.commit);
    assert(out@ =~= old(out)@ + header_bytes(*h));
}

fn put_note_proof(out: &mut Vec<u8>, p: &NoteProof)
    ensures
        final(out)@ == old(out)@ + note_proof_bytes(*p),
{
    let ghost start = out@;
    put32(out, &p.auth.dest.bytes);
    put32(out, &p.auth.r);
    put32(out, &p.auth.s);
    put32(out, &p.membership.note_id);
    put_u64(out, p.membership.index as u64);
    put_list32(out, p.membership.siblings.as_slice());
    put32(out, &p.binding.r);
    put32(out, &p.binding.s);
    assert(out@ =~= start + note_proof_bytes(*p));
}

fn put_spend(out: &mut Vec<u8>, s: &CompactSpend)
    ensures
        final(out)@ == old(out)@ + spend_bytes(*s),
{
    let ghost start = out@;
    put32(out, &s.spend_tag);
    put32(out, &s.rerand.commitment);
    match &s.proof {
        Some(p) => {
            put_u8(out, 1);
            put_note_proof(out, p);
        },
        None => put_u8(out, 0),
    }
    put_header(out, &s.pred);
    match &s.pred_body {
        Some(p) => {
            put_u8(out, 1);
            put_pred(out, p);
        },
        None => put_u8(out, 0),
    }
    put_bytes_list(out, s.pred_witness.keys.as_slice());
    put_bytes_list(out, s.pred_witness.fill.as_slice());
    assert(out@ =~= start + spend_bytes(*s));
}

fn put_output(out: &mut Vec<u8>, o: &CompactOutput)
    ensures
        final(out)@ == old(out)@ + output_bytes(*o),
{
    let ghost start = out@;
    put32(out, &o.dest.bytes);
    put32(out, &o.eph_pk);
    push_bytes(out, &o.diversifier);
    put32(out, &o.value_commitment.commitment);
    put_header(out, &o.pred);
    assert(out@ =~= start + output_bytes(*o));
}

fn put_action(out: &mut Vec<u8>, a: &CompactAction)
    ensures
        final(out)@ == old(out)@ + action_bytes(*a),
{
    let ghost start = out@;
    match &a.spend {
        Some(s) => {
            put_u8(out, 1);
            put_spend(out, s);
        },
        None => put_u8(out, 0),
    }
    match &a.output {
        Some(o) => {
            put_u8(out, 1);
            put_output(out, o);
        },
        None => put_u8(out, 0),
    }
    assert(out@ =~= start + action_bytes(*a));
}

fn put_actions(out: &mut Vec<u8>, acts: &Vec<CompactAction>)
    ensures
        final(out)@ == old(out)@ + actions_bytes(acts@),
{
    let ghost mid = out@;
    let mut k: usize = 0;
    while k < acts.len()
        invariant
            0 <= k <= acts@.len(),
            out@ == mid + actions_bytes(acts@.subrange(0, k as int)),
        decreases acts@.len() - k,
    {
        put_action(out, &acts[k]);
        proof {
            let s = acts@.subrange(0, k as int + 1);
            assert(s.drop_last() =~= acts@.subrange(0, k as int));
            assert(mid + actions_bytes(s) =~= mid + actions_bytes(acts@.subrange(0, k as int)) + action_bytes(acts@[k as int]));
        }
        k = k + 1;
    }
    assert(acts@.subrange(0, acts@.len() as int) =~= acts@);
}

fn put_emission(out: &mut Vec<u8>, e: &EmissionOr)
    ensures
        final(out)@ == old(out)@ + emission_bytes(*e),
{
    let ghost start = out@;
    put_list32(out, e.a.as_slice());
    put_list32(out, e.e.as_slice());
    put_list32(out, e.z.as_slice());
    assert(out@ =~= start + emission_bytes(*e));
}

/// Appends the canonical bytes of a bundle.
pub fn put_bundle(out: &mut Vec<u8>, b: &ActionBundle)
    ensures
        final(out)@ == old(out)@ + bundle_bytes(*b),
{
    let ghost start = out@;
    put_u32(out, b.version);
    put_u64(out, b.actions.len() as u64);
    put_actions(out, &b.actions);
    put32(out, &b.fee_commitment.commitment);
    let ghost before_binding = out@;
    match &b.binding {
        Some(x) => {
            put_u8(out, 1);
            put32(out, &x.r);
            put32(out, &x.s);
        },
        None => put_u8(out, 0),
    }
    let ghost mid = out@;
    assert(mid =~= before_binding + opt_bytes(b.binding is Some, match b.binding { Some(x) => x.r@ + x.s@, None => Seq::empty() }));
    match &b.emission {
        Some(e) => {
            put_u8(out, 1);
            put_emission(out, e);
        },
        None => put_u8(out, 0),
    }
    assert(out@ =~= mid + opt_bytes(b.emission is Some, match b.emission { Some(e) => emission_bytes(e), None => Seq::empty() }));
    assert(out@ =~= start + bundle_bytes(*b));
}

/// Two spends that encode alike and agree on tag, commitment, header and
/// every part of their proofs.
pub open spec fn spend_equiv(a: CompactSpend, b: CompactSpend) -> bool {
    &&& a.spend_tag == b.spend_tag && a.rerand == b.rerand && a.pred == b.pred && spend_bytes(a) == spend_bytes(b)
    &&& (a.proof is Some <==> b.proof is Some)
    &&& (a.proof matches Some(p) ==> b.proof matches Some(q) && p.auth == q.auth && p.binding == q.binding
            && p.membership.note_id == q.membership.note_id && p.membership.index == q.membership.index
            && p.membership.siblings@ == q.membership.siblings@)
}

/// Two bundles that agree part by part: version, fee commitment, binding
/// signature, actions, OR proof, and encoding.
pub open spec fn bundle_equiv(a: ActionBundle, b: ActionBundle) -> bool {
    &&& a.version == b.version
    &&& a.fee_commitment == b.fee_commitment
    &&& a.binding == b.binding
    &&& actions_equiv(a.actions@, b.actions@)
    &&& (a.emission is Some <==> b.emission is Some)
    &&& (a.emission matches Some(x) ==> b.emission matches Some(y) && x.a@ == y.a@ && x.e@ == y.e@ && x.z@ == y.z@)
    &&& bundle_bytes(a) == bundle_bytes(b)
}

/// Two actions with the same output and equivalent spends.
pub open spec fn action_equiv(a: CompactAction, b: CompactAction) -> bool {
    &&& a.output == b.output
    &&& match (a.spend, b.spend) {
        (Some(x), Some(y)) => spend_equiv(x, y),
        (None, None) => true,
        _ => false,
    }
}

/// Two action lists that agree action by action.
pub open spec fn actions_equiv(a: Seq<CompactAction>, b: Seq<CompactAction>) -> bool {
    a.len() == b.len() && forall|i: int| 0 <= i < a.len() ==> action_equiv(#[trigger] a[i], b[i])
}

/// Equivalent action lists encode alike, have the same real outputs, and
/// equivalent real spends.
pub proof fn lemma_actions_equiv(a: Seq<CompactAction>, b: Seq<CompactAction>)
    requires
        actions_equiv(a, b),
    ensures
        actions_bytes(a) == actions_bytes(b),
        real_outputs_spec(a) == real_outputs_spec(b),
        real_spends_spec(a).len() == real_spends_spec(b).len(),
        forall|i: int| 0 <= i < real_spends_spec(a).len() ==> spend_equiv(#[trigger] real_spends_spec(a)[i], real_spends_spec(b)[i]),
    decreases a.len(),
{
    if a.len() > 0 {
        let (a0, b0) = (a.drop_last(), b.drop_last());
        assert forall|i: int| 0 <= i < a0.len() implies action_equiv(#[trigger] a0[i], b0[i]) by {
            assert(a0[i] == a[i] && b0[i] == b[i]);
        }
        lemma_actions_equiv(a0, b0);
        assert(action_equiv(a.last(), b.last()));
    }
}

impl Clone for CompactSpend {
    fn clone(&self) -> (r: Self)
        ensures
            spend_equiv(r, *self),
            r.proof is Some <==> self.proof is Some,
            r.pred_body is Some <==> self.pred_body is Some,
    {
        let proof = match &self.proof {
            Some(p) => Some(p.clone()),
            None => None,
        };
        let pred_body = match &self.pred_body {
            Some(p) => Some(p.clone()),
            None => None,
        };
        let r = CompactSpend {
            spend_tag: self.spend_tag,
            rerand: self.rerand,
            proof,
            pred: self.pred,
            pred_body,
            pred_witness: self.pred_witness.clone(),
        };
        assert(spend_bytes(r) =~= spend_bytes(*self));
        r
    }
}

impl Clone for CompactAction {
    fn clone(&self) -> (r: Self)
        ensures
            action_equiv(r, *self),
    {
        let spend = match &self.spend {
            Some(s) => Some(s.clone()),
            None => None,
        };
        CompactAction { spend, output: self.output }
    }
}

fn clone_actions(v: &Vec<CompactAction>) -> (r: Vec<CompactAction>)
    ensures
        actions_equiv(r@, v@),
{
    let mut r: Vec<CompactAction> = Vec::new();
    let mut k: usize = 0;
    while k < v.len()
        invariant
            0 <= k <= v@.len(),
            r@.len() == k,
            forall|i: int| 0 <= i < k ==> action_equiv(#[trigger] r@[i], v@[i]),
        decreases v@.len() - k,
    {
        r.push(v[k].clone());
        k = k + 1;
    }
    r
}

impl Clone for ActionBundle {
    fn clone(&self) -> (r: Self)
        ensures
            bundle_bytes(r) == bundle_bytes(*self),
            bundle_equiv(r, *self),
            r.version == self.version,
            r.fee_commitment == self.fee_commitment,
            r.binding == self.binding,
            actions_equiv(r.actions@, self.actions@),
            real_outputs_spec(r.actions@) == real_outputs_spec(self.actions@),
            real_spends_spec(r.actions@).len() == real_spends_spec(self.actions@).len(),
    {
        let emission = match &self.emission {
            Some(e) => Some(e.clone()),
            None => None,
        };
        let r = ActionBundle {
            version: self.version,
            actions: clone_actions(&self.actions),
            fee_commitment: self.fee_commitment,
            binding: self.binding,
            emission,
        };
        proof {
            lemma_actions_equiv(r.actions@, self.actions@);
        }
        assert(bundle_bytes(r) =~= bundle_bytes(*self));
        r
    }
}

/// The padding action: a zero-tag spend and an identity output.
pub open spec fn is_pad_action(a: CompactAction) -> bool {
    &&& a.spend matches Some(s) && s.spend_tag == zero32() && s.rerand.commitment == zero32() && s.proof is None
        && s.pred.id == pred_pk_spec() && s.pred.commit == zero32() && s.pred_body is None
        && s.pred_witness.keys@.len() == 0 && s.pred_witness.fill@.len() == 0
    &&& a.output matches Some(o) && o.dest.bytes == zero32() && o.eph_pk == zero32()
        && o.diversifier@ == Seq::new(16, |i: int| 0u8) && o.value_commitment.commitment == zero32()
        && o.pred.id == pred_pk_spec() && o.pred.commit == zero32()
}

fn pad_action() -> (a: CompactAction)
    ensures
        is_pad_action(a),
{
    let div: [u8; 16] = [0u8; 16];
    assert(div@ =~= Seq::new(16, |i: int| 0u8));
    CompactAction {
        spend: Some(CompactSpend {
            spend_tag: [0u8; 32],
            rerand: ValueCommitment::identity(),
            proof: None,
            pred: PredHeader::pk(),
            pred_body: None,
            pred_witness: PredWitness::none(),
        }),
        output: Some(CompactOutput {
            dest: SpendPk { bytes: [0u8; 32] },
            eph_pk: [0u8; 32],
            diversifier: div,
            value_commitment: ValueCommitment::identity(),
            pred: PredHeader::pk(),
        }),
    }
}

proof fn lemma_pad_adds_nothing(acts: Seq<CompactAction>, a: CompactAction)
    requires
        is_pad_action(a),
    ensures
        real_outputs_spec(acts.push(a)) == real_outputs_spec(acts),
        real_spends_spec(acts.push(a)) == real_spends_spec(acts),
{
    assert(acts.push(a).drop_last() =~= acts);
}

/// The destinations of the real outputs, in order.
pub open spec fn out_dests_spec(acts: Seq<CompactAction>) -> Seq<SpendPk> {
    real_outputs_spec(acts).map_values(|o: CompactOutput| o.dest)
}

/// The check of one spend's predicate: the id must be listed, and a
/// non-default predicate needs its body, which must verify.
pub open spec fn spend_program_spec(s: CompactSpend, height: u64, dests: Seq<SpendPk>) -> Option<Seq<char>> {
    if !known_id_spec(s.pred.id) {
        Some("unknown spend pred"@)
    } else if s.pred.id != pred_pk_spec() {
        match s.pred_body {
            None => Some("pred body required"@),
            Some(body) => verify_pred_spec(body, s.pred, height, s.pred_witness.keys@, s.pred_witness.fill@, dests),
        }
    } else {
        None
    }
}

/// The first failing spend check, in order.
pub open spec fn spends_program_spec(sps: Seq<CompactSpend>, height: u64, dests: Seq<SpendPk>) -> Option<Seq<char>>
    decreases sps.len(),
{
    if sps.len() == 0 {
        None
    } else {
        let e = spend_program_spec(sps[0], height, dests);
        if e is Some { e } else { spends_program_spec(sps.drop_first(), height, dests) }
    }
}

/// What `verify_programs` decides: every real output names a listed
/// predicate, then every real spend passes its predicate check.
pub open spec fn programs_spec(acts: Seq<CompactAction>, height: u64) -> Option<Seq<char>> {
    if exists|i: int| 0 <= i < real_outputs_spec(acts).len() && !known_id_spec(#[trigger] real_outputs_spec(acts)[i].pred.id) {
        Some("unknown output pred"@)
    } else {
        spends_program_spec(real_spends_spec(acts), height, out_dests_spec(acts))
    }
}

fn check_spend_program(s: &CompactSpend, height: u64, dests: &Vec<SpendPk>) -> (r: Result<(), &'static str>)
    ensures
        result_matches(r, spend_program_spec(*s, height, dests@)),
{
    if !known_id(&s.pred.id) {
        return Err("unknown spend pred");
    }
    let pk = pred_pk();
    if !bytes32_eq(&s.pred.id, &pk) {
        match &s.pred_body {
            None => Err("pred body required"),
            Some(body) => verify_pred(PredContext {
                height,
                claimed: body,
                header: &s.pred,
                witness: &s.pred_witness,
                out_dests: dests.as_slice(),
            }),
        }
    } else {
        Ok(())
    }
}

impl ActionBundle {
    /// The bundle padded with padding actions up to `n` actions.
    pub fn pad_to(self, n: usize) -> (r: Self)
        ensures
            r.version == self.version,
            r.fee_commitment == self.fee_commitment,
            r.binding == self.binding,
            r.emission == self.emission,
            r.actions@.len() == (if self.actions@.len() >= n { self.actions@.len() } else { n as nat }),
            r.actions@.subrange(0, self.actions@.len() as int) == self.actions@,
            forall|i: int| self.actions@.len() <= i < r.actions@.len() ==> is_pad_action(#[trigger] r.actions@[i]),
            real_outputs_spec(r.actions@) == real_outputs_spec(self.actions@),
            real_spends_spec(r.actions@) == real_spends_spec(self.actions@),
    {
        let mut b = self;
        let ghost orig = b.actions@;
        while b.actions.len() < n
            invariant
                b.version == self.version,
                b.fee_commitment == self.fee_commitment,
                b.binding == self.binding,
                b.emission == self.emission,
                orig == self.actions@,
                orig.len() <= b.actions@.len(),
                b.actions@.len() <= n || b.actions@.len() == orig.len(),
                b.actions@.subrange(0, orig.len() as int) == orig,
                forall|i: int| orig.len() <= i < b.actions@.len() ==> is_pad_action(#[trigger] b.actions@[i]),
                real_outputs_spec(b.actions@) == real_outputs_spec(orig),
                real_spends_spec(b.actions@) == real_spends_spec(orig),
            decreases n - b.actions@.len(),
        {
            let a = pad_action();
            let ghost before = b.actions@;
            proof {
                lemma_pad_adds_nothing(before, a);
            }
            b.actions.push(a);
            assert(b.actions@.subrange(0, orig.len() as int) =~= orig);
        }
        b
    }

    /// The outputs whose commitment is not the identity.
    pub fn real_outputs(&self) -> (r: Vec<&CompactOutput>)
        ensures
            r@.len() == real_outputs_spec(self.actions@).len(),
            forall|i: int| 0 <= i < r@.len() ==> *(#[trigger] r@[i]) == real_outputs_spec(self.actions@)[i],
    {
        let mut out: Vec<&CompactOutput> = Vec::new();
        let mut k: usize = 0;
        while k < self.actions.len()
            invariant
                0 <= k <= self.actions@.len(),
                out@.len() == real_outputs_spec(self.actions@.subrange(0, k as int)).len(),
                forall|i: int| 0 <= i < out@.len() ==> *(#[trigger] out@[i]) == real_outputs_spec(self.actions@.subrange(0, k as int))[i],
            decreases self.actions@.len() - k,
        {
            let ghost s = self.actions@.subrange(0, k as int + 1);
            assert(s.drop_last() =~= self.actions@.subrange(0, k as int));
            match &self.actions[k].output {
                Some(o) => {
                    let id = [0u8; 32];
                    if !bytes32_eq(&o.value_commitment.commitment, &id) {
                        out.push(o);
                    }
                },
                None => {},
            }
            k = k + 1;
        }
        assert(self.actions@.subrange(0, self.actions@.len() as int) =~= self.actions@);
        out
    }

    /// The spends whose tag is not all zero.
    pub fn real_spends(&self) -> (r: Vec<&CompactSpend>)
        ensures
            r@.len() == real_spends_spec(self.actions@).len(),
            forall|i: int| 0 <= i < r@.len() ==> *(#[trigger] r@[i]) == real_spends_spec(self.actions@)[i],
    {
        let mut out: Vec<&CompactSpend> = Vec::new();
        let mut k: usize = 0;
        while k < self.actions.len()
            invariant
                0 <= k <= self.actions@.len(),
                out@.len() == real_spends_spec(self.actions@.subrange(0, k as int)).len(),
                forall|i: int| 0 <= i < out@.len() ==> *(#[trigger] out@[i]) == real_spends_spec(self.actions@.subrange(0, k as int))[i],
            decreases self.actions@.len() - k,
        {
            let ghost s = self.actions@.subrange(0, k as int + 1);
            assert(s.drop_last() =~= self.actions@.subrange(0, k as int));
            match &self.actions[k].spend {
                Some(sp) => {
                    let z = [0u8; 32];
                    if !bytes32_eq(&sp.spend_tag, &z) {
                        out.push(sp);
                    }
                },
                None => {},
            }
            k = k + 1;
        }
        assert(self.actions@.subrange(0, self.actions@.len() as int) =~= self.actions@);
        out
    }

    /// Spends nothing and creates outputs.
    pub fn is_emission(&self) -> (r: bool)
        ensures
            r == is_emission_spec(self.actions@),
    {
        self.real_spends().len() == 0 && self.real_outputs().len() != 0
    }

    /// Value balance: an emission needs an identity fee commitment, a spending
    /// bundle a binding signature, and both at least one output.
    pub fn verify_conservation(&self) -> (r: bool)
        ensures
            r == conservation_spec(*self),
    {
        let n_in = self.real_spends().len();
        let n_out = self.real_outputs().len();
        if n_in == 0 {
            let id = [0u8; 32];
            return n_out != 0 && bytes32_eq(&self.fee_commitment.commitment, &id);
        }
        self.binding.is_some() && n_out != 0
    }

    /// Checks the predicates of the bundle at `height`: every real output must
    /// name a listed predicate, and every real spend with a non-default
    /// predicate must carry its body, which must hold against the outputs.
    pub fn verify_programs(&self, height: u64) -> (r: Result<(), &'static str>)
        ensures
            result_matches(r, programs_spec(self.actions@, height)),
    {
        let outs = self.real_outputs();
        let mut dests: Vec<SpendPk> = Vec::new();
        let mut k: usize = 0;
        while k < outs.len()
            invariant
                0 <= k <= outs@.len(),
                outs@.len() == real_outputs_spec(self.actions@).len(),
                forall|i: int| 0 <= i < outs@.len() ==> *(#[trigger] outs@[i]) == real_outputs_spec(self.actions@)[i],
                dests@.len() == k,
                forall|i: int| 0 <= i < k ==> #[trigger] dests@[i] == real_outputs_spec(self.actions@)[i].dest,
            decreases outs@.len() - k,
        {
            dests.push(outs[k].dest);
            k = k + 1;
        }
        assert(dests@ =~= out_dests_spec(self.actions@));
        let mut j: usize = 0;
        while j < outs.len()
            invariant
                0 <= j <= outs@.len(),
                outs@.len() == real_outputs_spec(self.actions@).len(),
                forall|i: int| 0 <= i < outs@.len() ==> *(#[trigger] outs@[i]) == real_outputs_spec(self.actions@)[i],
                forall|i: int| 0 <= i < j ==> known_id_spec(#[trigger] real_outputs_spec(self.actions@)[i].pred.id),
            decreases outs@.len() - j,
        {
            if !known_id(&outs[j].pred.id) {
                return Err("unknown output pred");
            }
            j = j + 1;
        }
        assert(!(exists|i: int| 0 <= i < real_outputs_spec(self.actions@).len() && !known_id_spec(#[trigger] real_outputs_spec(self.actions@)[i].pred.id)));
        let sps = self.real_spends();
        let ghost all = real_spends_spec(self.actions@);
        assert(all.subrange(0, all.len() as int) =~= all);
        let mut m: usize = 0;
        while m < sps.len()
            invariant
                0 <= m <= sps@.len(),
                sps@.len() == all.len(),
                all == real_spends_spec(self.actions@),
                forall|i: int| 0 <= i < sps@.len() ==> *(#[trigger] sps@[i]) == all[i],
                dests@ == out_dests_spec(self.actions@),
                programs_spec(self.actions@, height) == spends_program_spec(all, height, dests@),
                spends_program_spec(all, height, dests@) == spends_program_spec(all.subrange(m as int, all.len() as int), height, dests@),
            decreases sps@.len() - m,
        {
            let ghost rest = all.subrange(m as int, all.len() as int);
            assert(rest[0] == all[m as int]);
            assert(rest.drop_first() =~= all.subrange(m as int + 1, all.len() as int));
            let r = check_spend_program(sps[m], height, &dests);
            if r.is_err() {
                assert(spend_program_spec(rest[0], height, dests@) is Some);
                assert(spends_program_spec(rest, height, dests@) == spend_program_spec(rest[0], height, dests@));
                return r;
            }
            m = m + 1;
        }
        assert(all.subrange(m as int, all.len() as int).len() == 0);
        Ok(())
    }

    /// The commitments of the real outputs.
    pub fn output_commitments(&self) -> (r: Vec<[u8; 32]>)
        ensures
            r@.len() == real_outputs_spec(self.actions@).len(),
            forall|i: int| 0 <= i < r@.len() ==> #[trigger] r@[i] == real_outputs_spec(self.actions@)[i].value_commitment.commitment,
    {
        let outs = self.real_outputs();
        let mut r: Vec<[u8; 32]> = Vec::new();
        let mut k: usize = 0;
        while k < outs.len()
            invariant
                0 <= k <= outs@.len(),
                outs@.len() == real_outputs_spec(self.actions@).len(),
                forall|i: int| 0 <= i < outs@.len() ==> *(#[trigger] outs@[i]) == real_outputs_spec(self.actions@)[i],
                r@.len() == k,
                forall|i: int| 0 <= i < k ==> #[trigger] r@[i] == real_outputs_spec(self.actions@)[i].value_commitment.commitment,
            decreases outs@.len() - k,
        {
            r.push(outs[k].value_commitment.commitment);
            k = k + 1;
        }
        r
    }

    /// The live notes the real outputs add.
    pub fn output_records(&self) -> (r: Vec<LiveNote>)
        ensures
            r@.len() == real_outputs_spec(self.actions@).len(),
            forall|i: int| 0 <= i < r@.len() ==> #[trigger] r@[i] == (LiveNote {
                cm: real_outputs_spec(self.actions@)[i].value_commitment.commitment,
                pred: real_outputs_spec(self.actions@)[i].pred.id,
                pred_commit: real_outputs_spec(self.actions@)[i].pred.commit,
            }),
    {
        let outs = self.real_outputs();
        let mut r: Vec<LiveNote> = Vec::new();
        let mut k: usize = 0;
        while k < outs.len()
            invariant
                0 <= k <= outs@.len(),
                outs@.len() == real_outputs_spec(self.actions@).len(),
                forall|i: int| 0 <= i < outs@.len() ==> *(#[trigger] outs@[i]) == real_outputs_spec(self.actions@)[i],
                r@.len() == k,
                forall|i: int| 0 <= i < k ==> #[trigger] r@[i] == (LiveNote {
                    cm: real_outputs_spec(self.actions@)[i].value_commitment.commitment,
                    pred: real_outputs_spec(self.actions@)[i].pred.id,
                    pred_commit: real_outputs_spec(self.actions@)[i].pred.commit,
                }),
            decreases outs@.len() - k,
        {
            let o = outs[k];
            r.push(LiveNote { cm: o.value_commitment.commitment, pred: o.pred.id, pred_commit: o.pred.commit });
            k = k + 1;
        }
        r
    }

    /// The tags of the real spends.
    pub fn spend_tags(&self) -> (r: Vec<[u8; 32]>)
        ensures
            r@.len() == real_spends_spec(self.actions@).len(),
            forall|i: int| 0 <= i < r@.len() ==> #[trigger] r@[i] == real_spends_spec(self.actions@)[i].spend_tag,
    {
        let sp = self.real_spends();
        let mut r: Vec<[u8; 32]> = Vec::new();
        let mut k: usize = 0;
        while k < sp.len()
            invariant
                0 <= k <= sp@.len(),
                sp@.len() == real_spends_spec(self.actions@).len(),
                forall|i: int| 0 <= i < sp@.len() ==> *(#[trigger] sp@[i]) == real_spends_spec(self.actions@)[i],
                r@.len() == k,
                forall|i: int| 0 <= i < k ==> #[trigger] r@[i] == real_spends_spec(self.actions@)[i].spend_tag,
            decreases sp@.len() - k,
        {
            r.push(sp[k].spend_tag);
            k = k + 1;
        }
        r
    }

    /// Bundle id: SHA256d of the canonical bytes.
    pub fn id(&self) -> (r: [u8; 32])
        ensures
            r == sha256d_spec(bundle_bytes(*self)),
    {
        let mut out: Vec<u8> = Vec::new();
        put_bundle(&mut out, self);
        assert(out@ =~= bundle_bytes(*self));
        sha256d(out.as_slice())
    }
}

} // verus!
