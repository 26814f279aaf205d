//! The chain: blocks, the note commitment tree, the living set and the
//! spend tags. Every block header binds the living-set commitment and the
//! spend-tag root reached after its bundles, so the note state can always
//! be rebuilt from the blocks alone.

use vstd::prelude::*;
use vstd::string::StringSliceAdditionalSpecFns;
use crate::chain::block::{Block, BlockHeader, BlockType, header_hash_spec, header_bytes_spec, bundles_root_spec,
    lemma_header_nonce_bytes, block_equiv, bundle_ids_spec};
use vstd::bytes::{spec_u64_to_le_bytes, u64_to_le_bytes, lemma_auto_spec_u64_to_from_le_bytes};
use crate::hash::sha256d;
use crate::notes::action::{ActionBundle, CompactAction, CompactSpend, CompactOutput, real_outputs_spec, real_spends_spec,
    is_emission_spec, conservation_spec, bundle_bytes, bundle_equiv, actions_equiv, spend_equiv, lemma_actions_equiv};
use crate::notes::commitment::ValueCommitment;
use crate::notes::launch::{LaunchSet, LaunchState, ProfileKind, append_spec, seal_spec, launch_commitment_spec,
    window_root_spec};
use crate::notes::tags::{SpendTagSet, tags_root_spec};
use crate::notes::tree::{NoteCommitmentTree, verify_inclusion_spec, zero32};
use crate::notes::spend_proof::{auth_verify_spec, binding_verify_spec};
use crate::notes::spend::{emission_bundle, emission_bundle_shape};
use crate::notes::payout::{SealedPayout, payout_spend_spec};
use crate::notes::pred::result_matches;
use crate::notes::stake::StakeProof;
use crate::order::{strictly_sorted, lemma_strictly_sorted_unique};
use crate::consensus::pow::{meets_difficulty, meets_difficulty_spec};
use crate::consensus::difficulty::{retarget, retarget_spec, pow_target_timespan, pow_target_timespan_spec,
    retarget_inputs_ok, MAX_RETARGET_DIFFICULTY};
use crate::node::consensus_data::unix_now;
use crate::params::{POW_BLOCK_REWARD, INITIAL_DIFFICULTY, GENESIS_TIMESTAMP, HALVING_INTERVAL,
    DIFFICULTY_ADJUSTMENT_WINDOW};
use crate::encode::{list32_bytes, push_hashes};
use crate::bytes::{push_bytes, bytes32_eq};

verus! {

// ---------------------------------------------------------------------------
// Checking one bundle against the living set
// ---------------------------------------------------------------------------

/// The commitments of the real spends (their rerandomised inputs).
pub open spec fn input_commitments_spec(acts: Seq<crate::notes::action::CompactAction>) -> Seq<ValueCommitment> {
    real_spends_spec(acts).map_values(|s: CompactSpend| s.rerand)
}

/// The value commitments of the real outputs.
pub open spec fn output_values_spec(acts: Seq<crate::notes::action::CompactAction>) -> Seq<ValueCommitment> {
    real_outputs_spec(acts).map_values(|o: CompactOutput| o.value_commitment)
}

/// The encoded commitments of the real outputs.
pub open spec fn output_cms_spec(acts: Seq<crate::notes::action::CompactAction>) -> Seq<[u8; 32]> {
    real_outputs_spec(acts).map_values(|o: CompactOutput| o.value_commitment.commitment)
}

/// The tags of the real spends.
pub open spec fn spend_tags_spec(acts: Seq<crate::notes::action::CompactAction>) -> Seq<[u8; 32]> {
    real_spends_spec(acts).map_values(|s: CompactSpend| s.spend_tag)
}

/// What a spend's binding signature signs: its tag, the output commitments,
/// the fee commitment and the window root.
pub open spec fn spend_transcript(tag: [u8; 32], outs: Seq<[u8; 32]>, fee: [u8; 32], root: [u8; 32]) -> Seq<u8> {
    tag@ + list32_bytes(outs) + fee@ + root@
}

/// The check of one real spend: it carries a proof whose signature, window
/// path and binding signature all verify.
pub open spec fn spend_ok_spec(s: CompactSpend, b: ActionBundle, root: [u8; 32]) -> Option<Seq<char>> {
    match s.proof {
        None => Some("note proof required"@),
        Some(p) => {
            if auth_verify_spec(p.auth, s.spend_tag, root, s.rerand.commitment)
                && verify_inclusion_spec(p.membership.note_id, p.membership.index as int, p.membership.siblings@, root)
                && binding_verify_spec(p.binding, input_commitments_spec(b.actions@), output_values_spec(b.actions@),
                    b.fee_commitment, spend_transcript(s.spend_tag, output_cms_spec(b.actions@), b.fee_commitment.commitment, root)) {
                None
            } else {
                Some("spend proof failed"@)
            }
        },
    }
}

/// The first failing spend check, in order.
pub open spec fn spends_ok_spec(sps: Seq<CompactSpend>, b: ActionBundle, root: [u8; 32]) -> Option<Seq<char>>
    decreases sps.len(),
{
    if sps.len() == 0 {
        None
    } else {
        let e = spend_ok_spec(sps[0], b, root);
        if e is Some { e } else { spends_ok_spec(sps.drop_first(), b, root) }
    }
}

/// What `verify_bundle_against` decides. The value balance must hold; an
/// emission must be allowed and carry one OR branch per output; any other
/// bundle must spend, and every spend must prove itself against the window.
#[verifier::opaque]
pub open spec fn check_bundle_spec(l: LaunchState, b: ActionBundle, allow_emission: bool) -> Option<Seq<char>> {
    let n = real_outputs_spec(b.actions@).len();
    if !conservation_spec(b) {
        Some("conservation failed"@)
    } else if is_emission_spec(b.actions@) {
        if !allow_emission {
            Some("emission only on the block emission path"@)
        } else if !(b.emission matches Some(e) && e.a@.len() == n && e.e@.len() == n && e.z@.len() == n) {
            Some("emission proof required"@)
        } else {
            None
        }
    } else if real_spends_spec(b.actions@).len() == 0 {
        Some("empty bundle"@)
    } else {
        spends_ok_spec(real_spends_spec(b.actions@), b, window_root_spec(l))
    }
}

fn commitments_of(outs: &Vec<&CompactOutput>, Ghost(all): Ghost<Seq<CompactOutput>>) -> (r: (Vec<ValueCommitment>, Vec<[u8; 32]>))
    requires
        outs@.len() == all.len(),
        forall|i: int| 0 <= i < outs@.len() ==> *(#[trigger] outs@[i]) == all[i],
    ensures
        r.0@ == all.map_values(|o: CompactOutput| o.value_commitment),
        r.1@ == all.map_values(|o: CompactOutput| o.value_commitment.commitment),
{
    let mut vs: Vec<ValueCommitment> = Vec::new();
    let mut cs: Vec<[u8; 32]> = Vec::new();
    let mut k: usize = 0;
    while k < outs.len()
        invariant
            0 <= k <= outs@.len(),
            outs@.len() == all.len(),
            forall|i: int| 0 <= i < outs@.len() ==> *(#[trigger] outs@[i]) == all[i],
            vs@ == all.subrange(0, k as int).map_values(|o: CompactOutput| o.value_commitment),
            cs@ == all.subrange(0, k as int).map_values(|o: CompactOutput| o.value_commitment.commitment),
        decreases outs@.len() - k,
    {
        vs.push(outs[k].value_commitment);
        cs.push(outs[k].value_commitment.commitment);
        k = k + 1;
        assert(vs@ =~= all.subrange(0, k as int).map_values(|o: CompactOutput| o.value_commitment));
        assert(cs@ =~= all.subrange(0, k as int).map_values(|o: CompactOutput| o.value_commitment.commitment));
    }
    assert(all.subrange(0, all.len() as int) =~= all);
    (vs, cs)
}

/// Checks a bundle against the living set; see `check_bundle_spec`.
pub fn verify_bundle_against(launch: &LaunchSet, bundle: &ActionBundle, allow_emission: bool) -> (r: Result<(), &'static str>)
    ensures
        result_matches(r, check_bundle_spec(launch.state(), *bundle, allow_emission)),
{
    reveal(check_bundle_spec);
    if !bundle.verify_conservation() {
        return Err("conservation failed");
    }
    let outs = bundle.real_outputs();
    let n = outs.len();
    if bundle.is_emission() {
        if !allow_emission {
            return Err("emission only on the block emission path");
        }
        match &bundle.emission {
            Some(e) => {
                if e.a.len() == n && e.e.len() == n && e.z.len() == n {
                    return Ok(());
                }
                return Err("emission proof required");
            },
            None => {
                return Err("emission proof required");
            },
        }
    }
    let sps = bundle.real_spends();
    if sps.len() == 0 {
        return Err("empty bundle");
    }
    let ghost all_sps = real_spends_spec(bundle.actions@);
    let mut inputs: Vec<ValueCommitment> = Vec::new();
    let mut k: usize = 0;
    while k < sps.len()
        invariant
            0 <= k <= sps@.len(),
            sps@.len() == all_sps.len(),
            forall|i: int| 0 <= i < sps@.len() ==> *(#[trigger] sps@[i]) == all_sps[i],
            inputs@ == all_sps.subrange(0, k as int).map_values(|s: CompactSpend| s.rerand),
        decreases sps@.len() - k,
    {
        inputs.push(sps[k].rerand);
        k = k + 1;
        assert(inputs@ =~= all_sps.subrange(0, k as int).map_values(|s: CompactSpend| s.rerand));
    }
    assert(all_sps.subrange(0, all_sps.len() as int) =~= all_sps);
    let (outputs, cms) = commitments_of(&outs, Ghost(real_outputs_spec(bundle.actions@)));
    let root = launch.window_root();
    let ghost b = *bundle;
    assert(spends_ok_spec(all_sps, b, root) == spends_ok_spec(all_sps.subrange(0, all_sps.len() as int), b, root));
    let mut m: usize = 0;
    while m < sps.len()
        invariant
            0 <= m <= sps@.len(),
            sps@.len() == all_sps.len(),
            forall|i: int| 0 <= i < sps@.len() ==> *(#[trigger] sps@[i]) == all_sps[i],
            all_sps == real_spends_spec(b.actions@),
            b == *bundle,
            inputs@ == input_commitments_spec(b.actions@),
            outputs@ == output_values_spec(b.actions@),
            cms@ == output_cms_spec(b.actions@),
            root == window_root_spec(launch.state()),
            check_bundle_spec(launch.state(), b, allow_emission) == spends_ok_spec(all_sps, b, root),
            spends_ok_spec(all_sps, b, root) == spends_ok_spec(all_sps.subrange(m as int, all_sps.len() as int), b, root),
        decreases sps@.len() - m,
    {
        let ghost rest = all_sps.subrange(m as int, all_sps.len() as int);
        assert(rest[0] == all_sps[m as int]);
        assert(rest.drop_first() =~= all_sps.subrange(m as int + 1, all_sps.len() as int));
        let s = sps[m];
        let note_pf = &s.proof;
        match note_pf {
            None => {
                return Err("note proof required");
            },
            Some(p) => {
                let mut transcript: Vec<u8> = Vec::new();
                push_bytes(&mut transcript, &s.spend_tag);
                push_hashes(&mut transcript, cms.as_slice());
                push_bytes(&mut transcript, &bundle.fee_commitment.commitment);
                push_bytes(&mut transcript, &root);
                assert(transcript@ =~= spend_transcript(s.spend_tag, cms@, bundle.fee_commitment.commitment, root));
                let ok = p.verify(&s.spend_tag, &s.rerand, root, inputs.as_slice(), outputs.as_slice(),
                    &bundle.fee_commitment, transcript.as_slice());
                if !ok {
                    return Err("spend proof failed");
                }
            },
        }
        m = m + 1;
    }
    Ok(())
}

// ---------------------------------------------------------------------------
// Applying bundles and blocks to the note state
// ---------------------------------------------------------------------------

/// The note state: the tree's leaves, the living set, and the spend tags seen.
pub struct NotesView {
    pub notes: Seq<[u8; 32]>,
    pub launch: LaunchState,
    pub tags: Set<[u8; 32]>,
}

/// The note state of an empty chain.
pub open spec fn empty_notes_view() -> NotesView {
    NotesView {
        notes: Seq::empty(),
        launch: LaunchState { profile: ProfileKind::Standard, live: Seq::empty(), window: Seq::empty(),
            forest_acc: zero32(), sealed_count: 0 },
        tags: Set::empty(),
    }
}

/// The tags inserted one by one; `None` at the first one already present.
pub open spec fn insert_tags_spec(set: Set<[u8; 32]>, tags: Seq<[u8; 32]>) -> Option<Set<[u8; 32]>>
    decreases tags.len(),
{
    if tags.len() == 0 {
        Some(set)
    } else {
        match insert_tags_spec(set, tags.drop_last()) {
            None => None,
            Some(s) => if s.contains(tags.last()) { None } else { Some(s.insert(tags.last())) },
        }
    }
}

/// The living set after appending the leaves in order.
pub open spec fn append_leaves_spec(l: LaunchState, cms: Seq<[u8; 32]>) -> LaunchState
    decreases cms.len(),
{
    if cms.len() == 0 { l } else { append_spec(append_leaves_spec(l, cms.drop_last()), cms.last()) }
}

/// A bundle applied to the note state: it must check, its spend tags must be
/// new, and its output commitments join the tree and the living set.
#[verifier::opaque]
pub open spec fn apply_bundle_spec(st: NotesView, b: ActionBundle, allow_emission: bool) -> Result<NotesView, Seq<char>> {
    match check_bundle_spec(st.launch, b, allow_emission) {
        Some(e) => Err(e),
        None => match insert_tags_spec(st.tags, spend_tags_spec(b.actions@)) {
            None => Err("duplicate spend tag"@),
            Some(t) => {
                let cms = output_cms_spec(b.actions@);
                if st.launch.sealed_count + cms.len() >= u64::MAX {
                    Err("living set full"@)
                } else {
                    Ok(NotesView { notes: st.notes + cms, launch: append_leaves_spec(st.launch, cms), tags: t })
                }
            },
        },
    }
}

/// The bundles of a block applied in order, each allowed to emit exactly
/// when it is an emission.
pub open spec fn apply_bundles_spec(st: NotesView, bs: Seq<ActionBundle>) -> Result<NotesView, Seq<char>>
    decreases bs.len(),
{
    if bs.len() == 0 {
        Ok(st)
    } else {
        match apply_bundles_spec(st, bs.drop_last()) {
            Err(e) => Err(e),
            Ok(s) => apply_bundle_spec(s, bs.last(), is_emission_spec(bs.last().actions@)),
        }
    }
}

/// The root of a set of spend tags: the root of its strictly sorted listing.
pub open spec fn set_root_spec(tags: Set<[u8; 32]>) -> [u8; 32] {
    tags_root_spec(choose|q: Seq<[u8; 32]>| strictly_sorted(q) && q.to_set() == tags)
}

/// A block applied to the note state: its bundles, then its header must
/// bind the living-set commitment and the tag root reached.
pub open spec fn apply_block_spec(st: NotesView, blk: Block) -> Result<NotesView, Seq<char>> {
    match apply_bundles_spec(st, blk.compact@) {
        Err(e) => Err(e),
        Ok(s) => {
            if blk.header.notes_root != launch_commitment_spec(s.launch) {
                Err("notes_root mismatch"@)
            } else if blk.header.tags_root != set_root_spec(s.tags) {
                Err("tags_root mismatch"@)
            } else {
                Ok(s)
            }
        },
    }
}

/// The note state the blocks lead to from an empty chain, or the first error.
pub open spec fn replay_spec(blocks: Seq<Block>) -> Result<NotesView, Seq<char>>
    decreases blocks.len(),
{
    if blocks.len() == 0 {
        Ok(empty_notes_view())
    } else {
        match replay_spec(blocks.drop_last()) {
            Err(e) => Err(e),
            Ok(s) => apply_block_spec(s, blocks.last()),
        }
    }
}

/// The result of an apply, as the library reports it.
pub open spec fn apply_matches<T>(r: Result<T, &'static str>, spec: Result<NotesView, Seq<char>>) -> bool {
    match spec {
        Ok(_) => r is Ok,
        Err(e) => r matches Err(m) && m@ == e,
    }
}

proof fn lemma_set_root(q: Seq<[u8; 32]>)
    requires
        strictly_sorted(q),
    ensures
        set_root_spec(q.to_set()) == tags_root_spec(q),
{
    let c = choose|x: Seq<[u8; 32]>| strictly_sorted(x) && x.to_set() == q.to_set();
    assert(strictly_sorted(c) && c.to_set() == q.to_set());
    lemma_strictly_sorted_unique(c, q);
}

proof fn lemma_append_sealed(l: LaunchState, leaf: [u8; 32])
    requires
        l.sealed_count < u64::MAX,
    ensures
        append_spec(l, leaf).sealed_count <= l.sealed_count + 1,
        append_spec(l, leaf).sealed_count >= l.sealed_count,
{
}

fn apply_bundle_to(notes: &mut NoteCommitmentTree, launch: &mut LaunchSet, tags: &mut SpendTagSet, b: &ActionBundle,
    allow_emission: bool) -> (r: Result<(), &'static str>)
    requires
        strictly_sorted(old(tags)@),
    ensures
        apply_matches(r, apply_bundle_spec(NotesView { notes: old(notes)@, launch: old(launch).state(), tags: old(tags)@.to_set() }, *b, allow_emission)),
        strictly_sorted(final(tags)@),
        r is Err ==> final(notes)@ == old(notes)@ && final(launch).state() == old(launch).state(),
        r is Err && !(check_bundle_spec(old(launch).state(), *b, allow_emission) is None
            && insert_tags_spec(old(tags)@.to_set(), spend_tags_spec(b.actions@)) is None) ==> final(tags)@ == old(tags)@,
        r is Err && check_bundle_spec(old(launch).state(), *b, allow_emission) is None
            && insert_tags_spec(old(tags)@.to_set(), spend_tags_spec(b.actions@)) is None
            ==> final(tags)@.to_set() == tags_until_dup(old(tags)@.to_set(), spend_tags_spec(b.actions@)),
        r is Ok ==> apply_bundle_spec(NotesView { notes: old(notes)@, launch: old(launch).state(), tags: old(tags)@.to_set() }, *b, allow_emission)
            == Ok::<NotesView, Seq<char>>(NotesView { notes: final(notes)@, launch: final(launch).state(), tags: final(tags)@.to_set() }),
{
    reveal(apply_bundle_spec);
    let ghost st = NotesView { notes: notes@, launch: launch.state(), tags: tags@.to_set() };
    let v = verify_bundle_against(launch, b, allow_emission);
    if v.is_err() {
        return v;
    }
    let tag_list = b.spend_tags();
    let ghost all_tags = spend_tags_spec(b.actions@);
    assert(tag_list@ =~= all_tags);
    let mut scratch = tags.clone();
    let mut k: usize = 0;
    assert(tag_list@.subrange(0, 0) =~= Seq::<[u8; 32]>::empty());
    while k < tag_list.len()
        invariant
            0 <= k <= tag_list@.len(),
            tag_list@ == all_tags,
            strictly_sorted(scratch@),
            tags@ == old(tags)@,
            notes@ == old(notes)@,
            launch.state() == old(launch).state(),
            strictly_sorted(old(tags)@),
            st == (NotesView { notes: old(notes)@, launch: old(launch).state(), tags: old(tags)@.to_set() }),
            check_bundle_spec(st.launch, *b, allow_emission) is None,
            all_tags == spend_tags_spec(b.actions@),
            insert_tags_spec(st.tags, all_tags.subrange(0, k as int)) == Some(scratch@.to_set()),
        decreases tag_list@.len() - k,
    {
        let ghost before = scratch@.to_set();
        let ins = scratch.insert(tag_list[k]);
        proof {
            let s = all_tags.subrange(0, k as int + 1);
            assert(s.drop_last() =~= all_tags.subrange(0, k as int));
            assert(s.last() == tag_list@[k as int]);
        }
        if ins.is_err() {
            proof {
                assert(before == scratch@.to_set());
                assert(scratch@.to_set().contains(tag_list@[k as int])) by {
                    assert(scratch@.contains(tag_list@[k as int]));
                }
                lemma_insert_tags_fails_later(st.tags, all_tags, k as int + 1);
                lemma_tags_until_dup(st.tags, all_tags, k as int, scratch@.to_set());
                reveal(apply_bundle_spec);
            }
            *tags = scratch;
            return Err("duplicate spend tag");
        }
        k = k + 1;
    }
    assert(all_tags.subrange(0, all_tags.len() as int) =~= all_tags);
    let cms = b.output_commitments();
    let ghost all_cms = output_cms_spec(b.actions@);
    assert(cms@ =~= all_cms);
    let sealed = launch.sealed_epochs();
    if sealed >= u64::MAX - (cms.len() as u64) {
        return Err("living set full");
    }
    *tags = scratch;
    let mut m: usize = 0;
    let ghost notes0 = notes@;
    let ghost l0 = launch.state();
    assert(cms@.subrange(0, 0) =~= Seq::<[u8; 32]>::empty());
    assert(notes0 + cms@.subrange(0, 0) =~= notes0);
    while m < cms.len()
        invariant
            0 <= m <= cms@.len(),
            cms@ == all_cms,
            notes0 == st.notes,
            l0 == st.launch,
            l0.sealed_count + cms@.len() < u64::MAX,
            notes@ == notes0 + cms@.subrange(0, m as int),
            launch.state() == append_leaves_spec(l0, cms@.subrange(0, m as int)),
            launch.state().sealed_count <= l0.sealed_count + m,
        decreases cms@.len() - m,
    {
        let ghost before = launch.state();
        proof {
            lemma_append_sealed(before, cms@[m as int]);
        }
        launch.append(cms[m]);
        notes.append(cms[m]);
        proof {
            let s = cms@.subrange(0, m as int + 1);
            assert(s.drop_last() =~= cms@.subrange(0, m as int));
            assert(s.last() == cms@[m as int]);
            assert(notes@ =~= notes0 + s);
        }
        m = m + 1;
    }
    assert(cms@.subrange(0, cms@.len() as int) =~= cms@);
    Ok(())
}

proof fn lemma_insert_tags_fails_later(set: Set<[u8; 32]>, tags: Seq<[u8; 32]>, k: int)
    requires
        0 <= k <= tags.len(),
        insert_tags_spec(set, tags.subrange(0, k)) is None,
    ensures
        insert_tags_spec(set, tags) is None,
    decreases tags.len() - k,
{
    if k < tags.len() {
        let s = tags.subrange(0, k + 1);
        assert(s.drop_last() =~= tags.subrange(0, k));
        lemma_insert_tags_fails_later(set, tags, k + 1);
    } else {
        assert(tags.subrange(0, k) =~= tags);
    }
}


/// The tags after inserting `tags` one by one into `set` until one is
/// already present: the insertions before it stay, the rest are not made.
pub open spec fn tags_until_dup(set: Set<[u8; 32]>, tags: Seq<[u8; 32]>) -> Set<[u8; 32]>
    decreases tags.len(),
{
    if tags.len() == 0 {
        set
    } else {
        match insert_tags_spec(set, tags.drop_last()) {
            None => tags_until_dup(set, tags.drop_last()),
            Some(s) => if s.contains(tags.last()) { s } else { s.insert(tags.last()) },
        }
    }
}

proof fn lemma_tags_until_dup(set: Set<[u8; 32]>, tags: Seq<[u8; 32]>, k: int, s: Set<[u8; 32]>)
    requires
        0 <= k < tags.len(),
        insert_tags_spec(set, tags.subrange(0, k)) == Some(s),
        s.contains(tags[k]),
    ensures
        tags_until_dup(set, tags) == s,
    decreases tags.len(),
{
    if tags.len() == k + 1 {
        assert(tags.drop_last() =~= tags.subrange(0, k));
    } else {
        let d = tags.drop_last();
        let p = tags.subrange(0, k + 1);
        assert(p.drop_last() =~= tags.subrange(0, k));
        assert(p.last() == tags[k]);
        assert(insert_tags_spec(set, p) is None);
        assert(d.subrange(0, k + 1) =~= p);
        lemma_insert_tags_fails_later(set, d, k + 1);
        assert(d.subrange(0, k) =~= tags.subrange(0, k));
        lemma_tags_until_dup(set, d, k, s);
    }
}

proof fn lemma_action_maps_equiv(a: Seq<CompactAction>, b: Seq<CompactAction>)
    requires
        actions_equiv(a, b),
    ensures
        input_commitments_spec(a) == input_commitments_spec(b),
        spend_tags_spec(a) == spend_tags_spec(b),
        real_outputs_spec(a) == real_outputs_spec(b),
        output_values_spec(a) == output_values_spec(b),
        output_cms_spec(a) == output_cms_spec(b),
        real_spends_spec(a).len() == real_spends_spec(b).len(),
        forall|i: int| 0 <= i < real_spends_spec(a).len() ==> spend_equiv(#[trigger] real_spends_spec(a)[i], real_spends_spec(b)[i]),
{
    lemma_actions_equiv(a, b);
    let (sa, sb) = (real_spends_spec(a), real_spends_spec(b));
    assert(input_commitments_spec(a) =~= input_commitments_spec(b)) by {
        assert forall|i: int| 0 <= i < sa.len() implies sa[i].rerand == sb[i].rerand by {
            assert(spend_equiv(sa[i], sb[i]));
        }
    }
    assert(spend_tags_spec(a) =~= spend_tags_spec(b)) by {
        assert forall|i: int| 0 <= i < sa.len() implies sa[i].spend_tag == sb[i].spend_tag by {
            assert(spend_equiv(sa[i], sb[i]));
        }
    }
}

proof fn lemma_spends_ok_equiv(s1: Seq<CompactSpend>, s2: Seq<CompactSpend>, b1: ActionBundle, b2: ActionBundle,
    root: [u8; 32])
    requires
        s1.len() == s2.len(),
        forall|i: int| 0 <= i < s1.len() ==> spend_equiv(#[trigger] s1[i], s2[i]),
        b1.fee_commitment == b2.fee_commitment,
        input_commitments_spec(b1.actions@) == input_commitments_spec(b2.actions@),
        real_outputs_spec(b1.actions@) == real_outputs_spec(b2.actions@),
    ensures
        spends_ok_spec(s1, b1, root) == spends_ok_spec(s2, b2, root),
    decreases s1.len(),
{
    if s1.len() > 0 {
        assert(spend_equiv(s1[0], s2[0]));
        assert(output_values_spec(b1.actions@) == output_values_spec(b2.actions@));
        assert(output_cms_spec(b1.actions@) == output_cms_spec(b2.actions@));
        assert(spend_ok_spec(s1[0], b1, root) == spend_ok_spec(s2[0], b2, root));
        assert forall|i: int| 0 <= i < s1.drop_first().len() implies spend_equiv(#[trigger] s1.drop_first()[i], s2.drop_first()[i]) by {
            assert(spend_equiv(s1[i + 1], s2[i + 1]));
        }
        lemma_spends_ok_equiv(s1.drop_first(), s2.drop_first(), b1, b2, root);
    }
}

/// Law: bundles that agree part by part are checked and applied alike.
pub proof fn lemma_bundle_equiv_apply(st: NotesView, l: LaunchState, b1: ActionBundle, b2: ActionBundle, allow: bool)
    requires
        bundle_equiv(b1, b2),
    ensures
        is_emission_spec(b1.actions@) == is_emission_spec(b2.actions@),
        output_cms_spec(b1.actions@) == output_cms_spec(b2.actions@),
        check_bundle_spec(l, b1, allow) == check_bundle_spec(l, b2, allow),
        apply_bundle_spec(st, b1, allow) == apply_bundle_spec(st, b2, allow),
{
    reveal(check_bundle_spec);
    reveal(apply_bundle_spec);
    lemma_action_maps_equiv(b1.actions@, b2.actions@);
    lemma_spends_ok_equiv(real_spends_spec(b1.actions@), real_spends_spec(b2.actions@), b1, b2, window_root_spec(l));
    lemma_spends_ok_equiv(real_spends_spec(b1.actions@), real_spends_spec(b2.actions@), b1, b2, window_root_spec(st.launch));
}

proof fn lemma_bundles_equiv_apply(st: NotesView, bs1: Seq<ActionBundle>, bs2: Seq<ActionBundle>)
    requires
        bs1.len() == bs2.len(),
        forall|i: int| 0 <= i < bs1.len() ==> #[trigger] bundle_equiv(bs1[i], bs2[i]),
    ensures
        apply_bundles_spec(st, bs1) == apply_bundles_spec(st, bs2),
        bundles_root_spec(bs1) == bundles_root_spec(bs2),
    decreases bs1.len(),
{
    assert(bundle_ids_spec(bs1) =~= bundle_ids_spec(bs2)) by {
        assert forall|i: int| 0 <= i < bs1.len() implies bundle_bytes(bs1[i]) == bundle_bytes(bs2[i]) by {
            assert(bundle_equiv(bs1[i], bs2[i]));
        }
    }
    if bs1.len() > 0 {
        let (d1, d2) = (bs1.drop_last(), bs2.drop_last());
        assert forall|i: int| 0 <= i < d1.len() implies #[trigger] bundle_equiv(d1[i], d2[i]) by {
            assert(bundle_equiv(bs1[i], bs2[i]));
        }
        lemma_bundles_equiv_apply(st, d1, d2);
        assert(bundle_equiv(bs1.last(), bs2.last()));
        match apply_bundles_spec(st, d1) {
            Ok(s) => {
                lemma_bundle_equiv_apply(s, s.launch, bs1.last(), bs2.last(), is_emission_spec(bs1.last().actions@));
            },
            Err(_) => {},
        }
    }
}

/// Law: blocks with the same header and bundles that agree one by one are
/// applied alike and have the same Merkle root.
pub proof fn lemma_block_equiv_apply(st: NotesView, k1: Block, k2: Block)
    requires
        block_equiv(k1, k2),
    ensures
        apply_block_spec(st, k1) == apply_block_spec(st, k2),
        bundles_root_spec(k1.compact@) == bundles_root_spec(k2.compact@),
{
    lemma_bundles_equiv_apply(st, k1.compact@, k2.compact@);
}

// ---------------------------------------------------------------------------
// The chain
// ---------------------------------------------------------------------------

/// The reward of a proof-of-work block at a height: halved every interval,
/// zero after 64 halvings.
pub open spec fn chain_reward_spec(height: u64) -> u64 {
    let halvings = height / HALVING_INTERVAL;
    if halvings >= 64 { 0 } else { (POW_BLOCK_REWARD >> halvings) as u64 }
}

/// `chrono::Utc::now().timestamp()`: the current Unix time in seconds.
/// Nothing is stated of it.
#[verifier::external_body]
fn utc_now() -> (r: i64) {
    chrono::Utc::now().timestamp()
}

/// Whether nonce `n` solves a header: the header with that nonce hashes to
/// a value that meets the header's difficulty.
pub open spec fn header_solves(h: BlockHeader, n: u64) -> bool {
    meets_difficulty_spec(header_hash_spec(BlockHeader { nonce: n, ..h })@, h.difficulty)
}

/// Whether no 64-bit nonce solves a header.
pub open spec fn no_nonce_solves(h: BlockHeader) -> bool {
    forall|m: u64| !#[trigger] header_solves(h, m)
}

/// The timespan of the adjustment window ending at the last block: the last
/// block's timestamp less that of the block a window back, at least one second.
pub open spec fn window_timespan_spec(blocks: Seq<Block>) -> u64 {
    let h = blocks.len();
    let d = blocks[h - 1].header.timestamp - blocks[h - DIFFICULTY_ADJUSTMENT_WINDOW].header.timestamp;
    if d < 1 { 1u64 } else { d as u64 }
}

/// The difficulty after a block: retargeted from `current` over the last
/// window when the chain has just completed a window, else `current`.
pub open spec fn retargeted_spec(blocks: Seq<Block>, current: u32) -> u32 {
    let h = blocks.len();
    if h % (DIFFICULTY_ADJUSTMENT_WINDOW as nat) == 0 && h > 0 {
        retarget_spec(current, window_timespan_spec(blocks), pow_target_timespan_spec() as u64) as u32
    } else {
        current
    }
}

/// The all-zero diversifier of coinbase outputs.
pub open spec fn zero16() -> [u8; 16] {
    vstd::array::spec_array_fill_for_copy_type::<u8, 16>(0u8)
}

/// Whether the coinbase of the payout of `miner` at `height`, paying
/// `reward`, is refused by the note state `st`.
pub open spec fn coinbase_refused(st: NotesView, miner: Seq<u8>, height: u64, reward: u64) -> bool {
    exists|b: ActionBundle| #[trigger] emission_bundle_shape(b, payout_spend_spec(miner, height), height, reward, zero16())
        && apply_bundle_spec(st, b, true) is Err
}

/// Whether some proof-of-work header at `height` and `difficulty` is solved
/// by no 64-bit nonce.
pub open spec fn pow_unsolvable(height: u64, difficulty: u32) -> bool {
    exists|hd: BlockHeader| #[trigger] no_nonce_solves(hd) && hd.height == height && hd.difficulty == difficulty
        && hd.block_type == BlockType::PoW
}

/// The header with the first nonce, counting from zero, whose hash meets
/// the header's difficulty; `None` when no 64-bit nonce does. The header is
/// serialised once and only its nonce bytes are rewritten between tries.
fn solve_header(header: BlockHeader) -> (r: Option<BlockHeader>)
    requires
        header.difficulty <= 256,
    ensures
        r matches Some(h) ==> h == (BlockHeader { nonce: h.nonce, ..header })
            && meets_difficulty_spec(header_hash_spec(h)@, h.difficulty)
            && forall|m: u64| m < h.nonce ==> !#[trigger] header_solves(header, m),
        r is None ==> no_nonce_solves(header),
{
    let ghost base = header_bytes_spec(header);
    let mut bytes = header.to_bytes();
    proof {
        lemma_header_nonce_bytes(header, 0);
    }
    let mut nonce: u64 = 0;
    loop
        invariant
            header.difficulty <= 256,
            base == header_bytes_spec(header),
            base.len() == 196,
            bytes@.len() == 196,
            bytes@.subrange(0, 92) == base.subrange(0, 92),
            bytes@.subrange(100, 196) == base.subrange(100, 196),
            forall|m: u64| m < nonce ==> !#[trigger] header_solves(header, m),
        decreases u64::MAX - nonce,
    {
        let le = u64_to_le_bytes(nonce);
        proof {
            lemma_auto_spec_u64_to_from_le_bytes();
        }
        let mut j: usize = 0;
        while j < 8
            invariant
                0 <= j <= 8,
                le@ == spec_u64_to_le_bytes(nonce),
                le@.len() == 8,
                bytes@.len() == 196,
                bytes@.subrange(0, 92) == base.subrange(0, 92),
                bytes@.subrange(100, 196) == base.subrange(100, 196),
                forall|k: int| 0 <= k < j ==> bytes@[92 + k] == le@[k],
            decreases 8 - j,
        {
            let ghost prev = bytes@;
            bytes.set(92 + j, le[j]);
            assert(bytes@.subrange(0, 92) =~= base.subrange(0, 92)) by {
                assert forall|k: int| 0 <= k < 92 implies bytes@.subrange(0, 92)[k] == base.subrange(0, 92)[k] by {
                    assert(prev.subrange(0, 92)[k] == prev[k]);
                }
            }
            assert(bytes@.subrange(100, 196) =~= base.subrange(100, 196)) by {
                assert forall|k: int| 0 <= k < 96 implies bytes@.subrange(100, 196)[k] == base.subrange(100, 196)[k] by {
                    assert(prev.subrange(100, 196)[k] == prev[k + 100]);
                }
            }
            j = j + 1;
        }
        let h = BlockHeader { nonce, ..header };
        proof {
            lemma_header_nonce_bytes(header, nonce);
            assert(bytes@ =~= base.subrange(0, 92) + spec_u64_to_le_bytes(nonce) + base.subrange(100, 196)) by {
                assert forall|k: int| 0 <= k < 196 implies bytes@[k] == (base.subrange(0, 92) + spec_u64_to_le_bytes(nonce) + base.subrange(100, 196))[k] by {
                    if k < 92 {
                        assert(bytes@.subrange(0, 92)[k] == bytes@[k]);
                    } else if k >= 100 {
                        assert(bytes@.subrange(100, 196)[k - 100] == bytes@[k]);
                    }
                }
            }
        }
        let hash = sha256d(bytes.as_slice());
        assert(hash == header_hash_spec(h));
        if meets_difficulty(&hash, header.difficulty) {
            return Some(h);
        }
        assert(!header_solves(header, nonce));
        if nonce == u64::MAX {
            assert forall|m: u64| !#[trigger] header_solves(header, m) by {
                if m < nonce {
                } else {
                    assert(m == nonce);
                }
            }
            return None;
        }
        nonce = nonce + 1;
    }
}

/// Blocks, the difficulty and supply, and the note state they lead to.
#[derive(Debug)]
pub struct Blockchain {
    pub blocks: Vec<Block>,
    /// The hash of block `i` at position `i`.
    pub block_index: Vec<[u8; 32]>,
    pub current_difficulty: u32,
    pub total_supply: u64,
    pub notes: NoteCommitmentTree,
    pub launch: LaunchSet,
    pub tags: SpendTagSet,
}

proof fn lemma_allow_apply(st: NotesView, b: ActionBundle)
    requires
        apply_bundle_spec(st, b, true) is Ok,
    ensures
        apply_bundle_spec(st, b, is_emission_spec(b.actions@)) == apply_bundle_spec(st, b, true),
{
    reveal(apply_bundle_spec);
    reveal(check_bundle_spec);
}

proof fn lemma_bundles_prefix_ok(st: NotesView, bs: Seq<ActionBundle>, k: int)
    requires
        0 <= k <= bs.len(),
        apply_bundles_spec(st, bs) is Ok,
    ensures
        apply_bundles_spec(st, bs.subrange(0, k)) is Ok,
    decreases bs.len() - k,
{
    if k < bs.len() {
        lemma_bundles_prefix_ok(st, bs.drop_last(), k);
        assert(bs.drop_last().subrange(0, k) =~= bs.subrange(0, k));
    } else {
        assert(bs.subrange(0, k) =~= bs);
    }
}

proof fn lemma_bundles_err_later(st: NotesView, bs: Seq<ActionBundle>, k: int)
    requires
        0 <= k <= bs.len(),
        apply_bundles_spec(st, bs.subrange(0, k)) is Err,
    ensures
        apply_bundles_spec(st, bs) == apply_bundles_spec(st, bs.subrange(0, k)),
    decreases bs.len() - k,
{
    if k < bs.len() {
        let s = bs.subrange(0, k + 1);
        assert(s.drop_last() =~= bs.subrange(0, k));
        lemma_bundles_err_later(st, bs, k + 1);
    } else {
        assert(bs.subrange(0, k) =~= bs);
    }
}

proof fn lemma_replay_err_later(blocks: Seq<Block>, k: int)
    requires
        0 <= k <= blocks.len(),
        replay_spec(blocks.subrange(0, k)) is Err,
    ensures
        replay_spec(blocks) == replay_spec(blocks.subrange(0, k)),
    decreases blocks.len() - k,
{
    if k < blocks.len() {
        let s = blocks.subrange(0, k + 1);
        assert(s.drop_last() =~= blocks.subrange(0, k));
        lemma_replay_err_later(blocks, k + 1);
    } else {
        assert(blocks.subrange(0, k) =~= blocks);
    }
}

/// Replays blocks from an empty note state; see `replay_spec`.
pub(crate) fn replay_blocks(blocks: &Vec<Block>) -> (r: Result<(NoteCommitmentTree, LaunchSet, SpendTagSet), &'static str>)
    ensures
        apply_matches(r, replay_spec(blocks@)),
        r matches Ok((n, l, t)) ==> strictly_sorted(t@)
        && replay_spec(blocks@) == Ok::<NotesView, Seq<char>>(NotesView { notes: n@, launch: l.state(), tags: t@.to_set() }),
{
    let mut notes = NoteCommitmentTree::new();
    let mut launch = LaunchSet::standard();
    let mut tags = SpendTagSet::new();
    proof {
        assert(tags@.to_set() =~= Set::<[u8; 32]>::empty());
        assert(blocks@.subrange(0, 0) =~= Seq::<Block>::empty());
    }
    let mut i: usize = 0;
    while i < blocks.len()
        invariant
            0 <= i <= blocks@.len(),
            strictly_sorted(tags@),
            replay_spec(blocks@.subrange(0, i as int))
                == Ok::<NotesView, Seq<char>>(NotesView { notes: notes@, launch: launch.state(), tags: tags@.to_set() }),
        decreases blocks@.len() - i,
    {
        let ghost s_i = NotesView { notes: notes@, launch: launch.state(), tags: tags@.to_set() };
        let ghost blk = blocks@[i as int];
        proof {
            let pre = blocks@.subrange(0, i as int + 1);
            assert(pre.drop_last() =~= blocks@.subrange(0, i as int));
            assert(pre.last() == blk);
            assert(blk.compact@.subrange(0, 0) =~= Seq::<ActionBundle>::empty());
            assert(replay_spec(blocks@.subrange(0, i as int + 1)) == apply_block_spec(s_i, blk));
        }
        let mut j: usize = 0;
        while j < blocks[i].compact.len()
            invariant
                0 <= i < blocks@.len(),
                blk == blocks@[i as int],
                0 <= j <= blk.compact@.len(),
                strictly_sorted(tags@),
                replay_spec(blocks@.subrange(0, i as int)) == Ok::<NotesView, Seq<char>>(s_i),
                replay_spec(blocks@.subrange(0, i as int + 1)) == apply_block_spec(s_i, blk),
                apply_bundles_spec(s_i, blk.compact@.subrange(0, j as int))
                    == Ok::<NotesView, Seq<char>>(NotesView { notes: notes@, launch: launch.state(), tags: tags@.to_set() }),
            decreases blk.compact@.len() - j,
        {
            let b = &blocks[i].compact[j];
            proof {
                let pre = blk.compact@.subrange(0, j as int + 1);
                assert(pre.drop_last() =~= blk.compact@.subrange(0, j as int));
                assert(pre.last() == *b);
            }
            let allow = b.is_emission();
            let step = apply_bundle_to(&mut notes, &mut launch, &mut tags, b, allow);
            if let Err(e) = step {
                proof {
                    let pre = blk.compact@.subrange(0, j as int + 1);
                    assert(apply_bundles_spec(s_i, pre) is Err);
                    lemma_bundles_err_later(s_i, blk.compact@, j as int + 1);
                    lemma_replay_err_later(blocks@, i as int + 1);
                }
                return Err(e);
            }
            j = j + 1;
        }
        proof {
            assert(blk.compact@.subrange(0, blk.compact@.len() as int) =~= blk.compact@);
        }
        let c = launch.commitment();
        if !bytes32_eq(&blocks[i].header.notes_root, &c) {
            proof {
                lemma_replay_err_later(blocks@, i as int + 1);
            }
            return Err("notes_root mismatch");
        }
        let t = tags.root();
        proof {
            lemma_set_root(tags@);
        }
        if !bytes32_eq(&blocks[i].header.tags_root, &t) {
            proof {
                lemma_replay_err_later(blocks@, i as int + 1);
            }
            return Err("tags_root mismatch");
        }
        i = i + 1;
    }
    proof {
        assert(blocks@.subrange(0, blocks@.len() as int) =~= blocks@);
    }
    Ok((notes, launch, tags))
}

impl Blockchain {
    /// The note state held by the chain.
    pub open spec fn notes_view(&self) -> NotesView {
        NotesView { notes: self.notes@, launch: self.launch.state(), tags: self.tags@.to_set() }
    }

    /// The note state is the one the blocks lead to.
    pub open spec fn synced(&self) -> bool {
        replay_spec(self.blocks@) == Ok::<NotesView, Seq<char>>(self.notes_view())
    }

    /// The block index holds each block's hash at its position.
    pub open spec fn indexed(&self) -> bool {
        &&& self.block_index@.len() == self.blocks@.len()
        &&& forall|i: int| 0 <= i < self.blocks@.len() ==> #[trigger] self.block_index@[i] == header_hash_spec(self.blocks@[i].header)
    }

    /// A chain holding its genesis block: the emission bundle of the genesis
    /// payout at height 0, under a header that binds the note state after it.
    #[verifier::rlimit(40)]
    pub fn new() -> (c: Self)
        ensures
            c.synced(),
            c.indexed(),
            c.blocks@.len() == 1,
            c.blocks@[0].header.height == 0,
            c.blocks@[0].header.prev_hash == zero32(),
            c.blocks@[0].header.timestamp == GENESIS_TIMESTAMP,
            c.blocks@[0].header.block_type == BlockType::PoW,
            c.blocks@[0].header.difficulty == INITIAL_DIFFICULTY,
            c.current_difficulty == INITIAL_DIFFICULTY,
            c.total_supply == POW_BLOCK_REWARD,
            strictly_sorted(c.tags@),
            c.tags@.len() == 0,
            c.blocks@[0].header.notes_root == launch_commitment_spec(c.launch.state()),
            c.blocks@[0].header.tags_root == tags_root_spec(c.tags@),
            c.blocks@[0].header.tags_root == zero32(),
            c.blocks@[0].header.merkle_root == bundles_root_spec(c.blocks@[0].compact@),
            c.block_index@ == seq![header_hash_spec(c.blocks@[0].header)],
            c.blocks@[0].compact@.len() == 1 ==> emission_bundle_shape(c.blocks@[0].compact@[0],
                payout_spend_spec("genesis".spec_bytes(), 0), 0, POW_BLOCK_REWARD, zero16()),
            c.blocks@[0].compact@.len() == 0 ==> coinbase_refused(empty_notes_view(), "genesis".spec_bytes(), 0,
                POW_BLOCK_REWARD),
            c.blocks@[0].compact@.len() <= 1,
    {
        let mut notes = NoteCommitmentTree::new();
        let mut launch = LaunchSet::standard();
        let mut tags = SpendTagSet::new();
        let ghost st0 = NotesView { notes: notes@, launch: launch.state(), tags: tags@.to_set() };
        assert(st0.tags =~= Set::<[u8; 32]>::empty());
        assert(st0 == empty_notes_view());
        let sealed = SealedPayout::from_wallet_seed("genesis".as_bytes(), 0);
        let bundle = emission_bundle(&sealed.spend, &sealed.scan, 0, POW_BLOCK_REWARD, [0u8; 16]);
        let applied = apply_bundle_to(&mut notes, &mut launch, &mut tags, &bundle, true);
        let ghost st1 = NotesView { notes: notes@, launch: launch.state(), tags: tags@.to_set() };
        let mut compact: Vec<ActionBundle> = Vec::new();
        let ghost bundle_v = bundle;
        proof {
            assert(sealed.spend == payout_spend_spec("genesis".spec_bytes(), 0));
            assert(emission_bundle_shape(bundle_v, payout_spend_spec("genesis".spec_bytes(), 0), 0, POW_BLOCK_REWARD,
                zero16()));
        }
        if applied.is_ok() {
            compact.push(bundle);
            proof {
                lemma_allow_apply(st0, bundle_v);
                assert(compact@.drop_last() =~= Seq::<ActionBundle>::empty());
                assert(compact@.last() == bundle_v);
                assert(apply_bundles_spec(st0, compact@.drop_last()) == Ok::<NotesView, Seq<char>>(st0));
            }
            proof {
                reveal(apply_bundle_spec);
                reveal_with_fuel(real_spends_spec, 3);
                assert(bundle_v.actions@.drop_last().drop_last() =~= Seq::<crate::notes::action::CompactAction>::empty());
                assert(spend_tags_spec(bundle_v.actions@) =~= Seq::<[u8; 32]>::empty());
                assert(st1.tags =~= Set::<[u8; 32]>::empty());
            }
        } else {
            proof {
                reveal_with_fuel(real_spends_spec, 3);
                assert(bundle_v.actions@.drop_last().drop_last() =~= Seq::<crate::notes::action::CompactAction>::empty());
                assert(spend_tags_spec(bundle_v.actions@) =~= Seq::<[u8; 32]>::empty());
            }
            assert(compact@ =~= Seq::<ActionBundle>::empty());
            assert(st1 == st0);
        }
        proof {
            if tags@.len() > 0 {
                assert(tags@.to_set().contains(tags@[0]));
            }
        }
        assert(apply_bundles_spec(st0, compact@) == Ok::<NotesView, Seq<char>>(st1));
        let merkle = Block::compute_merkle_root(compact.as_slice());
        let notes_root = launch.commitment();
        let tags_root = tags.root();
        proof {
            lemma_set_root(tags@);
        }
        let header = BlockHeader {
            version: 1,
            height: 0,
            prev_hash: [0u8; 32],
            merkle_root: merkle,
            timestamp: GENESIS_TIMESTAMP,
            difficulty: INITIAL_DIFFICULTY,
            block_type: BlockType::PoW,
            nonce: 0,
            stake_modifier: [0u8; 32],
            notes_root,
            tags_root,
        };
        let ghost compact_v = compact@;
        let genesis = Block { header, compact };
        let hash = genesis.hash();
        let mut blocks: Vec<Block> = Vec::new();
        blocks.push(genesis);
        let mut block_index: Vec<[u8; 32]> = Vec::new();
        block_index.push(hash);
        let c = Blockchain {
            blocks,
            block_index,
            current_difficulty: INITIAL_DIFFICULTY,
            total_supply: POW_BLOCK_REWARD,
            notes,
            launch,
            tags,
        };
        proof {
            assert(c.blocks@.drop_last() =~= Seq::<Block>::empty());
            assert(replay_spec(c.blocks@.drop_last()) == Ok::<NotesView, Seq<char>>(empty_notes_view()));
            assert(c.blocks@.last().compact@ == compact_v);
            assert(apply_block_spec(st0, c.blocks@.last()) == Ok::<NotesView, Seq<char>>(st1));
            assert(c.notes_view() == st1);
        }
        c
    }

    /// The hash of the last block; all zero for no blocks.
    pub fn tip_hash(&self) -> (r: [u8; 32])
        ensures
            self.blocks@.len() == 0 ==> r == zero32(),
            self.blocks@.len() > 0 ==> r == header_hash_spec(self.blocks@.last().header),
    {
        let n = self.blocks.len();
        if n == 0 {
            [0u8; 32]
        } else {
            self.blocks[n - 1].hash()
        }
    }

    /// The number of blocks.
    pub fn height(&self) -> (r: u64)
        ensures
            r == self.blocks@.len(),
    {
        self.blocks.len() as u64
    }

    /// The proof-of-work reward of the next block.
    pub fn current_pow_reward(&self) -> (r: u64)
        ensures
            r == chain_reward_spec(self.blocks@.len() as u64),
            r <= POW_BLOCK_REWARD,
    {
        let halvings = self.height() / HALVING_INTERVAL;
        if halvings >= 64 {
            return 0;
        }
        let full: u64 = POW_BLOCK_REWARD;
        assert((full >> halvings) <= full) by (bit_vector);
        full >> halvings
    }

    /// Applies a transfer bundle to the note state. Emissions are refused:
    /// they enter only through a block's coinbase. The spend tags are
    /// recorded one by one: a bundle refused for a duplicate tag keeps the
    /// tags recorded before it; on any other error nothing changes.
    pub fn apply_transfer(&mut self, bundle: &ActionBundle) -> (r: Result<(), &'static str>)
        ensures
            is_emission_spec(bundle.actions@) ==> (r matches Err(e) && e@ == "use emission path for coinbase"@),
            !is_emission_spec(bundle.actions@) ==> apply_matches(r, apply_bundle_spec(old(self).notes_view(), *bundle, false)),
            r is Ok ==> apply_bundle_spec(old(self).notes_view(), *bundle, false) == Ok::<NotesView, Seq<char>>(final(self).notes_view()),
            r is Err ==> final(self).notes@ == old(self).notes@ && final(self).launch.state() == old(self).launch.state(),
            r is Err && !(!is_emission_spec(bundle.actions@)
                && check_bundle_spec(old(self).launch.state(), *bundle, false) is None
                && insert_tags_spec(old(self).notes_view().tags, spend_tags_spec(bundle.actions@)) is None)
                ==> final(self).tags@ == old(self).tags@,
            r is Err && !is_emission_spec(bundle.actions@)
                && check_bundle_spec(old(self).launch.state(), *bundle, false) is None
                && insert_tags_spec(old(self).notes_view().tags, spend_tags_spec(bundle.actions@)) is None
                ==> final(self).notes_view().tags == tags_until_dup(old(self).notes_view().tags, spend_tags_spec(bundle.actions@)),
            final(self).blocks@ == old(self).blocks@,
            final(self).block_index@ == old(self).block_index@,
            final(self).current_difficulty == old(self).current_difficulty,
            final(self).total_supply == old(self).total_supply,
    {
        if bundle.is_emission() {
            return Err("use emission path for coinbase");
        }
        let _ = self.tags.len();
        apply_bundle_to(&mut self.notes, &mut self.launch, &mut self.tags, bundle, false)
    }

    fn maybe_retarget(&mut self)
        requires
            old(self).current_difficulty <= 256,
        ensures
            final(self).current_difficulty <= 256,
            final(self).blocks@ == old(self).blocks@,
            final(self).block_index@ == old(self).block_index@,
            final(self).total_supply == old(self).total_supply,
            final(self).notes@ == old(self).notes@,
            final(self).launch.state() == old(self).launch.state(),
            final(self).tags@ == old(self).tags@,
            final(self).current_difficulty == retargeted_spec(old(self).blocks@, old(self).current_difficulty),
    {
        let window = DIFFICULTY_ADJUSTMENT_WINDOW;
        let h = self.height();
        if h % window == 0 && h > 0 {
            let start = (h - window) as usize;
            let last = self.blocks.len() - 1;
            let first_ts = self.blocks[start].header.timestamp;
            let last_ts = self.blocks[last].header.timestamp;
            let diff: i128 = last_ts as i128 - first_ts as i128;
            let actual: u64 = if diff < 1 { 1 } else { diff as u64 };
            let target = pow_target_timespan();
            self.current_difficulty = retarget(self.current_difficulty, actual, target);
        }
    }

    /// Mines a proof-of-work block: applies the extra bundles, then the
    /// coinbase emission of the payout of `miner_address` at the next height,
    /// and searches nonces from zero for a header hash that meets the current
    /// difficulty. The difficulty is retargeted after every full window.
    /// `None` (with the chain unchanged) when the coinbase bundle does not
    /// apply or no 64-bit nonce solves the header.
    pub fn mine_pow_with_bundles(&mut self, miner_address: &str, extra: Vec<ActionBundle>) -> (r: Option<Block>)
        requires
            old(self).current_difficulty <= 256,
            old(self).total_supply + chain_reward_spec(old(self).blocks@.len() as u64) <= u64::MAX,
            strictly_sorted(old(self).tags@),
            apply_bundles_spec(old(self).notes_view(), extra@) is Ok,
            forall|i: int| 0 <= i < extra@.len() ==> !is_emission_spec(#[trigger] extra@[i].actions@),
        ensures
            final(self).current_difficulty <= 256,
            old(self).synced() ==> final(self).synced(),
            old(self).indexed() ==> final(self).indexed(),
            r is None ==> final(self).blocks@ == old(self).blocks@ && final(self).notes@ == old(self).notes@
                && final(self).launch.state() == old(self).launch.state() && final(self).tags@ == old(self).tags@
                && final(self).total_supply == old(self).total_supply
                && final(self).current_difficulty == old(self).current_difficulty,
            r is None ==> match apply_bundles_spec(old(self).notes_view(), extra@) {
                Ok(st) => coinbase_refused(st, miner_address.spec_bytes(), old(self).blocks@.len() as u64,
                        chain_reward_spec(old(self).blocks@.len() as u64))
                    || pow_unsolvable(old(self).blocks@.len() as u64, old(self).current_difficulty),
                Err(_) => false,
            },
            r matches Some(b) ==> {
                &&& forall|m: u64| m < b.header.nonce ==> !#[trigger] header_solves(b.header, m)
                &&& final(self).current_difficulty == retargeted_spec(final(self).blocks@, old(self).current_difficulty)
                &&& final(self).blocks@.len() == old(self).blocks@.len() + 1
                &&& final(self).blocks@.drop_last() == old(self).blocks@
                &&& final(self).blocks@.last().header == b.header
                &&& b.header.height == old(self).blocks@.len()
                &&& b.header.prev_hash == (if old(self).blocks@.len() == 0 { zero32() } else { header_hash_spec(old(self).blocks@.last().header) })
                &&& b.header.block_type == BlockType::PoW
                &&& b.header.difficulty == old(self).current_difficulty
                &&& meets_difficulty_spec(header_hash_spec(b.header)@, b.header.difficulty)
                &&& b.header.notes_root == launch_commitment_spec(final(self).launch.state())
                &&& b.header.tags_root == tags_root_spec(final(self).tags@)
                &&& b.header.merkle_root == bundles_root_spec(b.compact@)
                &&& b.compact@.len() == extra@.len() + 1
                &&& b.compact@.subrange(0, extra@.len() as int) == extra@
                &&& emission_bundle_shape(b.compact@.last(),
                        payout_spend_spec(miner_address.spec_bytes(), old(self).blocks@.len() as u64),
                        old(self).blocks@.len() as u64, chain_reward_spec(old(self).blocks@.len() as u64), zero16())
                &&& apply_bundles_spec(old(self).notes_view(), b.compact@)
                        == Ok::<NotesView, Seq<char>>(final(self).notes_view())
                &&& block_equiv(final(self).blocks@.last(), b)
                &&& final(self).total_supply == old(self).total_supply + chain_reward_spec(old(self).blocks@.len() as u64)
            },
    {
        let ghost st0 = self.notes_view();
        let mut notes = self.notes.clone();
        let mut launch = self.launch.clone();
        let mut tags = self.tags.clone();
        let mut k: usize = 0;
        assert(extra@.subrange(0, 0) =~= Seq::<ActionBundle>::empty());
        while k < extra.len()
            invariant
                0 <= k <= extra@.len(),
                apply_bundles_spec(st0, extra@) is Ok,
                forall|i: int| 0 <= i < extra@.len() ==> !is_emission_spec(#[trigger] extra@[i].actions@),
                strictly_sorted(tags@),
                apply_bundles_spec(st0, extra@.subrange(0, k as int))
                    == Ok::<NotesView, Seq<char>>(NotesView { notes: notes@, launch: launch.state(), tags: tags@.to_set() }),
            decreases extra@.len() - k,
        {
            proof {
                lemma_bundles_prefix_ok(st0, extra@, k as int + 1);
                let s = extra@.subrange(0, k as int + 1);
                assert(s.drop_last() =~= extra@.subrange(0, k as int));
                assert(s.last() == extra@[k as int]);
                assert(!is_emission_spec(extra@[k as int].actions@));
            }
            let step = apply_bundle_to(&mut notes, &mut launch, &mut tags, &extra[k], false);
            if step.is_err() {
                proof {
                    let s = extra@.subrange(0, k as int + 1);
                    assert(apply_bundles_spec(st0, s) is Ok);
                    assert(apply_bundle_spec(apply_bundles_spec(st0, s.drop_last())->Ok_0, s.last(), false) is Ok);
                    assert(false);
                }
                return None;
            }
            k = k + 1;
        }
        assert(extra@.subrange(0, extra@.len() as int) =~= extra@);
        let ghost st_extra = NotesView { notes: notes@, launch: launch.state(), tags: tags@.to_set() };
        let prev_hash = self.tip_hash();
        let height = self.height();
        let reward = self.current_pow_reward();
        let sealed = SealedPayout::from_wallet_seed(miner_address.as_bytes(), height);
        let bundle = emission_bundle(&sealed.spend, &sealed.scan, height, reward, [0u8; 16]);
        let ghost bundle_v = bundle;
        let applied = apply_bundle_to(&mut notes, &mut launch, &mut tags, &bundle, true);
        if applied.is_err() {
            proof {
                assert(sealed.spend == payout_spend_spec(miner_address.spec_bytes(), height));
                assert(emission_bundle_shape(bundle_v, payout_spend_spec(miner_address.spec_bytes(), height), height,
                    reward, zero16()));
                assert(apply_bundle_spec(st_extra, bundle_v, true) is Err);
            }
            return None;
        }
        let ghost st1 = NotesView { notes: notes@, launch: launch.state(), tags: tags@.to_set() };
        let mut compact = extra;
        let ghost extra_v = compact@;
        compact.push(bundle);
        proof {
            lemma_allow_apply(st_extra, bundle_v);
            assert(compact@.drop_last() =~= extra_v);
            assert(compact@.last() == bundle_v);
            assert(apply_bundles_spec(st0, compact@) == Ok::<NotesView, Seq<char>>(st1));
            assert(compact@.subrange(0, extra_v.len() as int) =~= extra_v);
        }
        let merkle = Block::compute_merkle_root(compact.as_slice());
        let notes_root = launch.commitment();
        let tags_root = tags.root();
        proof {
            lemma_set_root(tags@);
        }
        let difficulty = self.current_difficulty;
        let now = utc_now();
        let mut header = BlockHeader {
            version: 1,
            height,
            prev_hash,
            merkle_root: merkle,
            timestamp: now,
            difficulty,
            block_type: BlockType::PoW,
            nonce: 0,
            stake_modifier: [0u8; 32],
            notes_root,
            tags_root,
        };
        let ghost template = header;
        let header = match solve_header(header) {
            Some(h) => h,
            None => {
                assert(no_nonce_solves(template));
                return None;
            },
        };
        assert(header == (BlockHeader { nonce: header.nonce, ..template }));
        assert forall|m: u64| m < header.nonce implies !#[trigger] header_solves(header, m) by {
            assert((BlockHeader { nonce: m, ..header }) == (BlockHeader { nonce: m, ..template }));
            assert(!header_solves(template, m));
        }
        let ghost compact_v = compact@;
        let block = Block { header, compact };
        let hash = block.hash();
        let stored = block.clone();
        self.notes = notes;
        self.launch = launch;
        self.tags = tags;
        self.block_index.push(hash);
        self.blocks.push(stored);
        self.total_supply = self.total_supply + reward;
        proof {
            assert(self.blocks@.drop_last() =~= old(self).blocks@);
            assert(block.compact@ == compact_v);
            assert(block.header.notes_root == launch_commitment_spec(st1.launch));
            assert(block.header.tags_root == set_root_spec(st1.tags));
            assert(apply_block_spec(st0, block) == Ok::<NotesView, Seq<char>>(st1));
            lemma_block_equiv_apply(st0, self.blocks@.last(), block);
            assert(compact_v.last() == bundle_v);
        }
        self.maybe_retarget();
        Some(block)
    }

    /// Mints a proof-of-stake block paying `reward` (computed from the stake
    /// by the caller) to the payout of `staker_address`: its emission bundle
    /// is applied and bound by a PoS header. A zero reward is refused; on any
    /// error nothing changes.
    pub fn mint_pos_block(&mut self, staker_address: &str, proof: &StakeProof, reward: u64) -> (r: Result<Block, &'static str>)
        requires
            old(self).total_supply <= u64::MAX - reward,
            strictly_sorted(old(self).tags@),
        ensures
            reward == 0 ==> (r matches Err(e) && e@ == "zero pos reward"@),
            old(self).synced() ==> final(self).synced(),
            old(self).indexed() ==> final(self).indexed(),
            final(self).current_difficulty == old(self).current_difficulty,
            r is Err ==> final(self).blocks@ == old(self).blocks@ && final(self).notes@ == old(self).notes@
                && final(self).launch.state() == old(self).launch.state() && final(self).tags@ == old(self).tags@
                && final(self).total_supply == old(self).total_supply,
            r is Err ==> reward == 0 || coinbase_refused(old(self).notes_view(), staker_address.spec_bytes(),
                old(self).blocks@.len() as u64, reward),
            r matches Ok(b) ==> {
                &&& final(self).blocks@.len() == old(self).blocks@.len() + 1
                &&& final(self).blocks@.drop_last() == old(self).blocks@
                &&& final(self).blocks@.last().header == b.header
                &&& b.header.height == old(self).blocks@.len()
                &&& b.header.prev_hash == (if old(self).blocks@.len() == 0 { zero32() } else { header_hash_spec(old(self).blocks@.last().header) })
                &&& b.header.difficulty == old(self).current_difficulty
                &&& b.header.tags_root == tags_root_spec(final(self).tags@)
                &&& b.header.merkle_root == bundles_root_spec(final(self).blocks@.last().compact@)
                &&& emission_bundle_shape(b.compact@[0],
                        payout_spend_spec(staker_address.spec_bytes(), old(self).blocks@.len() as u64),
                        old(self).blocks@.len() as u64, reward, zero16())
                &&& b.compact@.len() == 1
                &&& block_equiv(final(self).blocks@.last(), b)
                &&& b.header.block_type == BlockType::PoS
                &&& b.header.nonce == 0
                &&& b.header.notes_root == launch_commitment_spec(final(self).launch.state())
                &&& final(self).blocks@.last().compact@.len() == 1
                &&& apply_bundles_spec(old(self).notes_view(), final(self).blocks@.last().compact@)
                        == Ok::<NotesView, Seq<char>>(final(self).notes_view())
                &&& final(self).total_supply == old(self).total_supply + reward
            },
    {
        let _ = proof;
        if reward == 0 {
            return Err("zero pos reward");
        }
        let ghost st0 = self.notes_view();
        let mut notes = self.notes.clone();
        let mut launch = self.launch.clone();
        let mut tags = self.tags.clone();
        let prev_hash = self.tip_hash();
        let height = self.height();
        let sealed = SealedPayout::from_wallet_seed(staker_address.as_bytes(), height);
        let bundle = emission_bundle(&sealed.spend, &sealed.scan, height, reward, [0u8; 16]);
        let ghost bundle_v = bundle;
        let applied = apply_bundle_to(&mut notes, &mut launch, &mut tags, &bundle, true);
        if applied.is_err() {
            proof {
                assert(sealed.spend == payout_spend_spec(staker_address.spec_bytes(), height));
                assert(emission_bundle_shape(bundle_v, payout_spend_spec(staker_address.spec_bytes(), height), height,
                    reward, zero16()));
                assert(apply_bundle_spec(st0, bundle_v, true) is Err);
            }
            return match applied {
                Err(e) => Err(e),
                Ok(_) => Err("zero pos reward"),
            };
        }
        let ghost st1 = NotesView { notes: notes@, launch: launch.state(), tags: tags@.to_set() };
        let mut compact: Vec<ActionBundle> = Vec::new();
        compact.push(bundle);
        proof {
            lemma_allow_apply(st0, bundle_v);
            assert(compact@.drop_last() =~= Seq::<ActionBundle>::empty());
            assert(compact@.last() == bundle_v);
            assert(apply_bundles_spec(st0, compact@.drop_last()) == Ok::<NotesView, Seq<char>>(st0));
            assert(apply_bundles_spec(st0, compact@) == Ok::<NotesView, Seq<char>>(st1));
        }
        let merkle = Block::compute_merkle_root(compact.as_slice());
        let notes_root = launch.commitment();
        let tags_root = tags.root();
        proof {
            lemma_set_root(tags@);
        }
        let now = utc_now();
        let header = BlockHeader {
            version: 1,
            height,
            prev_hash,
            merkle_root: merkle,
            timestamp: now,
            difficulty: self.current_difficulty,
            block_type: BlockType::PoS,
            nonce: 0,
            stake_modifier: [0u8; 32],
            notes_root,
            tags_root,
        };
        let ghost compact_v = compact@;
        let block = Block { header, compact };
        let hash = block.hash();
        let stored = block.clone();
        self.notes = notes;
        self.launch = launch;
        self.tags = tags;
        self.block_index.push(hash);
        self.blocks.push(stored);
        self.total_supply = self.total_supply + reward;
        proof {
            assert(self.blocks@.drop_last() =~= old(self).blocks@);
            assert(block.compact@ == compact_v);
            assert(apply_block_spec(st0, block) == Ok::<NotesView, Seq<char>>(st1));
            lemma_block_equiv_apply(st0, self.blocks@.last(), block);
        }
        Ok(block)
    }

    /// Rebuilds the note state from the blocks alone: every bundle of every
    /// block is checked against the state so far (emissions allowed only as
    /// such) and applied, and every header must bind the living-set
    /// commitment and tag root reached. On an error the note state is left
    /// as it was.
    pub fn rebuild_notes(&mut self) -> (r: Result<(), &'static str>)
        ensures
            apply_matches(r, replay_spec(old(self).blocks@)),
            final(self).blocks@ == old(self).blocks@,
            final(self).block_index@ == old(self).block_index@,
            final(self).current_difficulty == old(self).current_difficulty,
            final(self).total_supply == old(self).total_supply,
            r is Ok ==> final(self).synced(),
            r is Err ==> final(self).notes@ == old(self).notes@ && final(self).launch.state() == old(self).launch.state()
                && final(self).tags@ == old(self).tags@,
            old(self).synced() ==> r is Ok && final(self).notes@ == old(self).notes@
                && final(self).launch.state() == old(self).launch.state() && final(self).tags@ == old(self).tags@,
    {
        let _ = self.tags.len();
        match replay_blocks(&self.blocks) {
            Err(e) => Err(e),
            Ok((notes, launch, tags)) => {
                proof {
                    if old(self).synced() {
                        assert(tags@.to_set() == old(self).tags@.to_set());
                        lemma_strictly_sorted_unique(tags@, old(self).tags@);
                    }
                }
                self.notes = notes;
                self.launch = launch;
                self.tags = tags;
                Ok(())
            },
        }
    }

    /// Mines a proof-of-work block with only the coinbase.
    pub fn mine_pow_block(&mut self, miner_address: &str) -> (r: Option<Block>)
        requires
            old(self).current_difficulty <= 256,
            old(self).total_supply + chain_reward_spec(old(self).blocks@.len() as u64) <= u64::MAX,
            strictly_sorted(old(self).tags@),
        ensures
            final(self).current_difficulty <= 256,
            old(self).synced() ==> final(self).synced(),
            old(self).indexed() ==> final(self).indexed(),
            r is None ==> final(self).blocks@ == old(self).blocks@ && final(self).notes@ == old(self).notes@
                && final(self).launch.state() == old(self).launch.state() && final(self).tags@ == old(self).tags@
                && final(self).total_supply == old(self).total_supply
                && final(self).current_difficulty == old(self).current_difficulty,
            r is None ==> coinbase_refused(old(self).notes_view(), miner_address.spec_bytes(), old(self).blocks@.len() as u64,
                    chain_reward_spec(old(self).blocks@.len() as u64))
                || pow_unsolvable(old(self).blocks@.len() as u64, old(self).current_difficulty),
            r matches Some(b) ==> {
                &&& forall|m: u64| m < b.header.nonce ==> !#[trigger] header_solves(b.header, m)
                &&& final(self).current_difficulty == retargeted_spec(final(self).blocks@, old(self).current_difficulty)
                &&& b.header.difficulty == old(self).current_difficulty
                &&& final(self).blocks@.len() == old(self).blocks@.len() + 1
                &&& final(self).blocks@.drop_last() == old(self).blocks@
                &&& final(self).blocks@.last().header == b.header
                &&& b.header.height == old(self).blocks@.len()
                &&& b.header.block_type == BlockType::PoW
                &&& meets_difficulty_spec(header_hash_spec(b.header)@, b.header.difficulty)
                &&& b.header.notes_root == launch_commitment_spec(final(self).launch.state())
                &&& final(self).blocks@.last().compact@.len() == 1
                &&& b.compact@.len() == 1
                &&& b.header.merkle_root == bundles_root_spec(b.compact@)
                &&& emission_bundle_shape(b.compact@[0],
                        payout_spend_spec(miner_address.spec_bytes(), old(self).blocks@.len() as u64),
                        old(self).blocks@.len() as u64, chain_reward_spec(old(self).blocks@.len() as u64), zero16())
                &&& apply_bundles_spec(old(self).notes_view(), b.compact@)
                        == Ok::<NotesView, Seq<char>>(final(self).notes_view())
                &&& block_equiv(final(self).blocks@.last(), b)
                &&& final(self).total_supply == old(self).total_supply + chain_reward_spec(old(self).blocks@.len() as u64)
            },
    {
        let extra: Vec<ActionBundle> = Vec::new();
        proof {
            assert(extra@ =~= Seq::<ActionBundle>::empty());
            assert(apply_bundles_spec(self.notes_view(), extra@) == Ok::<NotesView, Seq<char>>(self.notes_view()));
        }
        self.mine_pow_with_bundles(miner_address, extra)
    }
}

} // verus!
