//! Living set: the current window of commitments, in epochs of a fixed
//! bucket size padded with unspendable points, with a running accumulator
//! over every sealed epoch.

use vstd::prelude::*;
use vstd::bytes::spec_u64_to_le_bytes;
use vstd::string::StringSliceAdditionalSpecFns;
use crate::hash::{sha256d, sha256d_spec, sha512_digest, sha512_spec};
use crate::crypto::{ristretto_from_uniform, ristretto_from_uniform_spec};
use crate::bytes::{push_bytes, bytes32_eq};
use crate::encode::{put_u64, put32, put_u8};
use crate::order::{sort_spec, sorted_copy, lemma_sort_permutation};
use crate::notes::tree::{merkle_root, merkle_root_spec, merkle_path, proof_path, verify_inclusion_spec,
    lemma_proof_roundtrip, copy_hashes, NoteCommitmentTree};

verus! {

/// Size profile of a living set.
#[derive(Clone, Copy, Debug, PartialEq, Eq)]
pub enum ProfileKind {
    Constrained,
    Sparse,
    Standard,
    Dense,
}

/// Leaves per epoch of a profile.
pub open spec fn cap_spec(p: ProfileKind) -> usize {
    match p {
        ProfileKind::Constrained => 64,
        ProfileKind::Sparse => 256,
        ProfileKind::Standard => 1024,
        ProfileKind::Dense => 4096,
    }
}

/// Epochs kept in the window of a profile.
pub open spec fn window_epochs_spec(p: ProfileKind) -> usize {
    match p {
        ProfileKind::Constrained => 4,
        ProfileKind::Sparse => 8,
        ProfileKind::Standard => 16,
        ProfileKind::Dense => 32,
    }
}

/// Wire id of a profile.
pub open spec fn profile_id_spec(p: ProfileKind) -> u8 {
    match p {
        ProfileKind::Constrained => 1,
        ProfileKind::Sparse => 2,
        ProfileKind::Standard => 3,
        ProfileKind::Dense => 4,
    }
}

impl ProfileKind {
    /// Leaves per epoch.
    pub fn cap(self) -> (r: usize)
        ensures
            r == cap_spec(self),
    {
        match self {
            ProfileKind::Constrained => 64,
            ProfileKind::Sparse => 256,
            ProfileKind::Standard => 1024,
            ProfileKind::Dense => 4096,
        }
    }

    /// Epochs kept in the window.
    pub fn window_epochs(self) -> (r: usize)
        ensures
            r == window_epochs_spec(self),
    {
        match self {
            ProfileKind::Constrained => 4,
            ProfileKind::Sparse => 8,
            ProfileKind::Standard => 16,
            ProfileKind::Dense => 32,
        }
    }

    /// Size an epoch is padded to: the cap.
    pub fn bucket(self) -> (r: usize)
        ensures
            r == cap_spec(self),
    {
        self.cap()
    }

    /// Wire id.
    pub fn id(self) -> (r: u8)
        ensures
            r == profile_id_spec(self),
    {
        match self {
            ProfileKind::Constrained => 1,
            ProfileKind::Sparse => 2,
            ProfileKind::Standard => 3,
            ProfileKind::Dense => 4,
        }
    }
}

/// The bytes hashed for a padding point.
pub open spec fn pad_preimage(acc: [u8; 32], sealed: u64, i: u64) -> Seq<u8> {
    "epoch-pad-point".spec_bytes() + acc@ + spec_u64_to_le_bytes(sealed) + spec_u64_to_le_bytes(i)
}

/// Padding leaf `i` of the epoch sealed after `sealed` others: a point derived from the accumulator.
pub open spec fn pad_point_spec(acc: [u8; 32], sealed: u64, i: u64) -> [u8; 32] {
    ristretto_from_uniform_spec(sha512_spec(pad_preimage(acc, sealed, i))@)
}

fn pad_point(acc: &[u8; 32], sealed: u64, i: u64) -> (r: [u8; 32])
    ensures
        r == pad_point_spec(*acc, sealed, i),
{
    let mut buf: Vec<u8> = Vec::new();
    push_bytes(&mut buf, "epoch-pad-point".as_bytes());
    put32(&mut buf, acc);
    put_u64(&mut buf, sealed);
    put_u64(&mut buf, i);
    let wide = sha512_digest(buf.as_slice());
    ristretto_from_uniform(&wide)
}

/// The epochs concatenated, oldest first.
pub open spec fn flatten_epochs(w: Seq<Seq<[u8; 32]>>) -> Seq<[u8; 32]>
    decreases w.len(),
{
    if w.len() == 0 { Seq::empty() } else { flatten_epochs(w.drop_last()) + w.last() }
}

/// The live epoch padded with padding points up to the bucket size.
pub open spec fn padded_spec(live: Seq<[u8; 32]>, acc: [u8; 32], sealed: u64, bucket: nat) -> Seq<[u8; 32]> {
    if live.len() >= bucket {
        live
    } else {
        live + Seq::new((bucket - live.len()) as nat, |k: int| pad_point_spec(acc, sealed, (live.len() + k) as u64))
    }
}

/// The last `e` epochs.
pub open spec fn keep_last(w: Seq<Seq<[u8; 32]>>, e: nat) -> Seq<Seq<[u8; 32]>> {
    if w.len() > e { w.subrange(w.len() - e, w.len() as int) } else { w }
}

/// The contents of each epoch vector.
pub open spec fn epoch_views(w: Seq<Vec<[u8; 32]>>) -> Seq<Seq<[u8; 32]>> {
    w.map_values(|e: Vec<[u8; 32]>| e@)
}

/// The observable state of a living set.
pub struct LaunchState {
    pub profile: ProfileKind,
    pub live: Seq<[u8; 32]>,
    pub window: Seq<Seq<[u8; 32]>>,
    pub forest_acc: [u8; 32],
    pub sealed_count: u64,
}

/// The state after sealing the live epoch.
pub open spec fn seal_spec(s: LaunchState) -> LaunchState {
    if s.live.len() == 0 {
        s
    } else {
        let padded = padded_spec(s.live, s.forest_acc, s.sealed_count, cap_spec(s.profile) as nat);
        LaunchState {
            profile: s.profile,
            live: Seq::empty(),
            window: keep_last(s.window.push(padded), window_epochs_spec(s.profile) as nat),
            forest_acc: sha256d_spec(s.forest_acc@ + merkle_root_spec(padded)@),
            sealed_count: (s.sealed_count + 1) as u64,
        }
    }
}

/// The state after appending a leaf (sealing when the live epoch fills up).
pub open spec fn append_spec(s: LaunchState, leaf: [u8; 32]) -> LaunchState {
    let t = LaunchState { live: s.live.push(leaf), ..s };
    if t.live.len() >= cap_spec(s.profile) { seal_spec(t) } else { t }
}

/// All leaves of the window: sealed epochs oldest first, then the live ones.
pub open spec fn live_leaves_spec(s: LaunchState) -> Seq<[u8; 32]> {
    flatten_epochs(s.window) + s.live
}

/// Root of the window: the Merkle root of its leaves in sorted order.
pub open spec fn window_root_spec(s: LaunchState) -> [u8; 32] {
    merkle_root_spec(sort_spec(live_leaves_spec(s)))
}

/// Commitment: SHA256d of `window_root || forest_acc || profile_id`.
pub open spec fn launch_commitment_spec(s: LaunchState) -> [u8; 32] {
    sha256d_spec(window_root_spec(s)@ + s.forest_acc@ + seq![profile_id_spec(s.profile)])
}

/// Living set: the current window of commitments.
#[derive(Debug)]
pub struct LaunchSet {
    profile: ProfileKind,
    live: Vec<[u8; 32]>,
    window: Vec<Vec<[u8; 32]>>,
    forest_acc: [u8; 32],
    sealed_count: u64,
}

impl Clone for LaunchSet {
    fn clone(&self) -> (r: Self)
        ensures
            r.state() == self.state(),
    {
        let mut window: Vec<Vec<[u8; 32]>> = Vec::new();
        let mut k: usize = 0;
        while k < self.window.len()
            invariant
                0 <= k <= self.window@.len(),
                window@.len() == k,
                forall|i: int| 0 <= i < k ==> (#[trigger] window@[i])@ == self.window@[i]@,
            decreases self.window@.len() - k,
        {
            window.push(copy_hashes(self.window[k].as_slice()));
            k = k + 1;
        }
        let r = LaunchSet {
            profile: self.profile,
            live: copy_hashes(self.live.as_slice()),
            window,
            forest_acc: self.forest_acc,
            sealed_count: self.sealed_count,
        };
        assert(epoch_views(r.window@) =~= epoch_views(self.window@));
        r
    }
}

impl LaunchSet {
    /// The number of epochs sealed so far.
    pub fn sealed_epochs(&self) -> (r: u64)
        ensures
            r == self.state().sealed_count,
    {
        self.sealed_count
    }

    /// The observable state.
    pub closed spec fn state(&self) -> LaunchState {
        LaunchState {
            profile: self.profile,
            live: self.live@,
            window: epoch_views(self.window@),
            forest_acc: self.forest_acc,
            sealed_count: self.sealed_count,
        }
    }

    /// An empty set of the profile.
    pub fn new(profile: ProfileKind) -> (s: Self)
        ensures
            s.state() == (LaunchState { profile, live: Seq::empty(), window: Seq::empty(),
                forest_acc: crate::notes::tree::zero32(), sealed_count: 0 }),
    {
        let s = LaunchSet { profile, live: Vec::new(), window: Vec::new(), forest_acc: [0u8; 32], sealed_count: 0 };
        assert(epoch_views(s.window@) =~= Seq::<Seq<[u8; 32]>>::empty());
        s
    }

    /// An empty set of the standard profile.
    pub fn standard() -> (s: Self)
        ensures
            s.state() == (LaunchState { profile: ProfileKind::Standard, live: Seq::empty(), window: Seq::empty(),
                forest_acc: crate::notes::tree::zero32(), sealed_count: 0 }),
    {
        Self::new(ProfileKind::Standard)
    }

    /// The profile.
    pub fn profile(&self) -> (r: ProfileKind)
        ensures
            r == self.state().profile,
    {
        self.profile
    }

    /// All leaves of the window, sealed epochs oldest first, then the live ones.
    pub fn live_leaves(&self) -> (r: Vec<[u8; 32]>)
        ensures
            r@ == live_leaves_spec(self.state()),
    {
        let mut out: Vec<[u8; 32]> = Vec::new();
        let mut k: usize = 0;
        let ghost w = epoch_views(self.window@);
        while k < self.window.len()
            invariant
                0 <= k <= self.window@.len(),
                w == epoch_views(self.window@),
                out@ == flatten_epochs(w.subrange(0, k as int)),
            decreases self.window@.len() - k,
        {
            let epoch = &self.window[k];
            let ghost before = out@;
            let mut j: usize = 0;
            while j < epoch.len()
                invariant
                    0 <= j <= epoch@.len(),
                    out@ == before + epoch@.subrange(0, j as int),
                decreases epoch@.len() - j,
            {
                out.push(epoch[j]);
                j = j + 1;
                assert(out@ =~= before + epoch@.subrange(0, j as int));
            }
            proof {
                assert(epoch@.subrange(0, epoch@.len() as int) =~= epoch@);
                let s = w.subrange(0, k as int + 1);
                assert(s.drop_last() =~= w.subrange(0, k as int));
                assert(s.last() == epoch@);
            }
            k = k + 1;
        }
        assert(w.subrange(0, w.len() as int) =~= w);
        let ghost before = out@;
        let mut j: usize = 0;
        while j < self.live.len()
            invariant
                0 <= j <= self.live@.len(),
                out@ == before + self.live@.subrange(0, j as int),
            decreases self.live@.len() - j,
        {
            out.push(self.live[j]);
            j = j + 1;
            assert(out@ =~= before + self.live@.subrange(0, j as int));
        }
        assert(self.live@.subrange(0, self.live@.len() as int) =~= self.live@);
        out
    }

    /// Root of the window: Merkle root of the sorted leaves.
    pub fn window_root(&self) -> (r: [u8; 32])
        ensures
            r == window_root_spec(self.state()),
    {
        let leaves = self.live_leaves();
        let sorted = sorted_copy(leaves.as_slice());
        merkle_root(sorted.as_slice())
    }

    /// SHA256d of `window_root || forest_acc || profile_id`.
    pub fn commitment(&self) -> (r: [u8; 32])
        ensures
            r == launch_commitment_spec(self.state()),
    {
        let mut c: Vec<u8> = Vec::new();
        let root = self.window_root();
        put32(&mut c, &root);
        put32(&mut c, &self.forest_acc);
        put_u8(&mut c, self.profile.id());
        assert(c@ =~= root@ + self.forest_acc@ + seq![profile_id_spec(self.profile)]);
        sha256d(c.as_slice())
    }

    /// Whether the leaf is in the window.
    pub fn contains(&self, leaf: [u8; 32]) -> (r: bool)
        ensures
            r == live_leaves_spec(self.state()).contains(leaf),
    {
        let leaves = self.live_leaves();
        let mut i: usize = 0;
        while i < leaves.len()
            invariant
                0 <= i <= leaves@.len(),
                leaves@ == live_leaves_spec(self.state()),
                forall|j: int| 0 <= j < i ==> leaves@[j] != leaf,
            decreases leaves@.len() - i,
        {
            if bytes32_eq(&leaves[i], &leaf) {
                assert(leaves@[i as int] == leaf);
                return true;
            }
            i = i + 1;
        }
        false
    }

    /// Appends a leaf; the live epoch is sealed when it reaches the cap.
    pub fn append(&mut self, leaf: [u8; 32])
        requires
            old(self).state().sealed_count < u64::MAX,
        ensures
            final(self).state() == append_spec(old(self).state(), leaf),
    {
        let ghost s0 = self.state();
        self.live.push(leaf);
        proof {
            assert(epoch_views(self.window@) =~= s0.window);
            assert(self.state() == (LaunchState { live: s0.live.push(leaf), ..s0 }));
        }
        if self.live.len() >= self.profile.cap() {
            self.seal();
        }
    }

    /// Pads the live epoch to the bucket size, folds its root into the
    /// accumulator, moves it into the window, and drops epochs beyond the window.
    pub fn seal(&mut self)
        requires
            old(self).state().live.len() == 0 || old(self).state().sealed_count < u64::MAX,
        ensures
            final(self).state() == seal_spec(old(self).state()),
    {
        if self.live.len() == 0 {
            return;
        }
        let ghost s0 = self.state();
        self.pad_live();
        let epoch_root = merkle_root(self.live.as_slice());
        let mut acc: Vec<u8> = Vec::new();
        put32(&mut acc, &self.forest_acc);
        put32(&mut acc, &epoch_root);
        self.forest_acc = sha256d(acc.as_slice());
        let mut epoch: Vec<[u8; 32]> = Vec::new();
        std::mem::swap(&mut epoch, &mut self.live);
        let ghost padded = epoch@;
        self.window.push(epoch);
        self.sealed_count = self.sealed_count + 1;
        let ghost pushed = s0.window.push(padded);
        proof {
            assert(epoch_views(self.window@) =~= pushed);
        }
        let keep = self.profile.window_epochs();
        if self.window.len() > keep {
            let drop = self.window.len() - keep;
            let mut kept: Vec<Vec<[u8; 32]>> = Vec::new();
            let mut k: usize = drop;
            while k < self.window.len()
                invariant
                    drop <= k <= self.window@.len(),
                    epoch_views(self.window@) == pushed,
                    epoch_views(kept@) =~= pushed.subrange(drop as int, k as int),
                decreases self.window@.len() - k,
            {
                let copy: Vec<[u8; 32]> = copy_hashes(self.window[k].as_slice());
                let ghost cv = copy@;
                assert(cv == pushed[k as int]);
                let ghost before = epoch_views(kept@);
                kept.push(copy);
                proof {
                    assert(epoch_views(kept@) =~= before.push(cv));
                    assert(pushed.subrange(drop as int, k as int + 1) =~= pushed.subrange(drop as int, k as int).push(pushed[k as int]));
                }
                k = k + 1;
            }
            self.window = kept;
        }
    }

    fn pad_live(&mut self)
        requires
            old(self).live@.len() > 0,
        ensures
            final(self).live@ == padded_spec(old(self).live@, old(self).forest_acc, old(self).sealed_count,
                cap_spec(old(self).profile) as nat),
            final(self).profile == old(self).profile,
            final(self).window == old(self).window,
            final(self).forest_acc == old(self).forest_acc,
            final(self).sealed_count == old(self).sealed_count,
    {
        let bucket = self.profile.bucket();
        let start = self.live.len();
        let ghost l0 = self.live@;
        while self.live.len() < bucket
            invariant
                start == l0.len(),
                bucket == cap_spec(self.profile),
                self.profile == old(self).profile,
                self.window == old(self).window,
                self.forest_acc == old(self).forest_acc,
                self.sealed_count == old(self).sealed_count,
                l0 == old(self).live@,
                start <= self.live@.len(),
                self.live@.len() <= bucket || self.live@.len() == start,
                self.live@.subrange(0, start as int) == l0,
                forall|k: int| start <= k < self.live@.len() ==> self.live@[k] == pad_point_spec(self.forest_acc, self.sealed_count, k as u64),
            decreases bucket - self.live@.len(),
        {
            let i = self.live.len() as u64;
            let p = pad_point(&self.forest_acc, self.sealed_count, i);
            self.live.push(p);
            assert(self.live@.subrange(0, start as int) =~= l0);
        }
        proof {
            if l0.len() < bucket {
                assert(self.live@ =~= padded_spec(l0, self.forest_acc, self.sealed_count, bucket as nat));
            } else {
                assert(self.live@ =~= l0);
            }
        }
    }

    /// Position of the leaf among the sorted window leaves and its sibling path;
    /// `None` when the leaf is not in the window.
    pub fn prove_window(&self, leaf: [u8; 32]) -> (r: Option<(usize, Vec<[u8; 32]>)>)
        ensures
            r is None <==> !sort_spec(live_leaves_spec(self.state())).contains(leaf),
            r matches Some((i, p)) ==> i < sort_spec(live_leaves_spec(self.state())).len()
                && sort_spec(live_leaves_spec(self.state()))[i as int] == leaf
                && p@ == proof_path(sort_spec(live_leaves_spec(self.state())), i as int),
    {
        let leaves = self.live_leaves();
        let sorted = sorted_copy(leaves.as_slice());
        let mut index: usize = 0;
        while index < sorted.len()
            invariant
                0 <= index <= sorted@.len(),
                sorted@ == sort_spec(live_leaves_spec(self.state())),
                forall|j: int| 0 <= j < index ==> sorted@[j] != leaf,
            decreases sorted@.len() - index,
        {
            if bytes32_eq(&sorted[index], &leaf) {
                assert(sorted@[index as int] == leaf);
                let path = merkle_path(sorted.as_slice(), index);
                match path {
                    Some(p) => return Some((index, p)),
                    None => return None,
                }
            }
            index = index + 1;
        }
        None
    }
}

/// Law: the path `prove_window` gives for a leaf verifies against the window root.
pub proof fn lemma_window_proof_verifies(s: LaunchState, i: int, path: Seq<[u8; 32]>)
    requires
        0 <= i < sort_spec(live_leaves_spec(s)).len(),
        path == proof_path(sort_spec(live_leaves_spec(s)), i),
    ensures
        verify_inclusion_spec(sort_spec(live_leaves_spec(s))[i], i, path, window_root_spec(s)),
{
    lemma_proof_roundtrip(sort_spec(live_leaves_spec(s)), i);
}

/// Law: sorting keeps exactly the leaves, so a leaf has a window proof iff it is in the window.
pub proof fn lemma_window_proof_iff_contains(s: LaunchState, leaf: [u8; 32])
    ensures
        sort_spec(live_leaves_spec(s)).contains(leaf) <==> live_leaves_spec(s).contains(leaf),
{
    crate::order::lemma_lex_le_total_ordering();
    live_leaves_spec(s).lemma_sort_by_ensures(crate::order::lex_le_rel());
    let a = live_leaves_spec(s);
    let b = sort_spec(a);
    broadcast use vstd::seq_lib::group_to_multiset_ensures;
    assert(a.contains(leaf) <==> a.to_multiset().contains(leaf));
    assert(b.contains(leaf) <==> b.to_multiset().contains(leaf));
}

/// Law: the window root depends only on which leaves the window holds and
/// how often, not on the order in which they came.
pub proof fn lemma_window_root_order_free(s1: LaunchState, s2: LaunchState)
    requires
        live_leaves_spec(s1).to_multiset() == live_leaves_spec(s2).to_multiset(),
    ensures
        window_root_spec(s1) == window_root_spec(s2),
{
    lemma_sort_permutation(live_leaves_spec(s1), live_leaves_spec(s2));
}

proof fn lemma_flatten_has_last(w: Seq<Seq<[u8; 32]>>, leaf: [u8; 32])
    requires
        w.len() > 0,
        w.last().contains(leaf),
    ensures
        flatten_epochs(w).contains(leaf),
{
    let k = choose|k: int| 0 <= k < w.last().len() && w.last()[k] == leaf;
    let f = flatten_epochs(w.drop_last());
    assert(flatten_epochs(w) == f + w.last());
    assert((f + w.last())[f.len() + k] == leaf);
}

/// Law: appending a leaf to a set whose live epoch is below the cap puts the
/// leaf in the window and keeps the live epoch below the cap. Below the cap
/// the window's leaves grow by exactly that leaf; at the cap the live epoch is
/// sealed: it empties, one more epoch is counted, and at most the profile's
/// number of epochs stay in the window.
pub proof fn lemma_append_law(s: LaunchState, leaf: [u8; 32])
    requires
        s.live.len() < cap_spec(s.profile),
        s.sealed_count < u64::MAX,
    ensures
        live_leaves_spec(append_spec(s, leaf)).contains(leaf),
        append_spec(s, leaf).live.len() < cap_spec(s.profile),
        append_spec(s, leaf).profile == s.profile,
        s.live.len() + 1 < cap_spec(s.profile) ==> live_leaves_spec(append_spec(s, leaf)) == live_leaves_spec(s).push(leaf),
        s.live.len() + 1 < cap_spec(s.profile) ==> append_spec(s, leaf).window == s.window,
        s.live.len() + 1 == cap_spec(s.profile) ==> {
            &&& append_spec(s, leaf).live.len() == 0
            &&& append_spec(s, leaf).window.len() <= window_epochs_spec(s.profile)
            &&& append_spec(s, leaf).sealed_count == s.sealed_count + 1
        },
{
    let t = LaunchState { live: s.live.push(leaf), ..s };
    let r = append_spec(s, leaf);
    assert(t.live[t.live.len() - 1] == leaf);
    if t.live.len() >= cap_spec(s.profile) {
        let padded = padded_spec(t.live, t.forest_acc, t.sealed_count, cap_spec(t.profile) as nat);
        assert(padded.subrange(0, t.live.len() as int) =~= t.live);
        assert(padded[t.live.len() - 1] == leaf);
        let pushed = t.window.push(padded);
        let e = window_epochs_spec(s.profile) as nat;
        let kept = keep_last(pushed, e);
        assert(e >= 1);
        assert(kept.len() > 0 && kept.last() == padded);
        assert(padded.contains(leaf));
        lemma_flatten_has_last(kept, leaf);
        assert(live_leaves_spec(r) =~= flatten_epochs(kept));
    } else {
        assert(live_leaves_spec(r) =~= live_leaves_spec(s).push(leaf));
        assert(live_leaves_spec(r)[live_leaves_spec(r).len() - 1] == leaf);
    }
}

} // verus!
