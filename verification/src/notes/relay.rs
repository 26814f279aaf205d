//! In-process stem/fluff relay. Bundles move hop by hop along a stem path
//! derived from the sender's secret, and are broadcast (fluffed) when the
//! path is used up.

use vstd::prelude::*;
use vstd::bytes::{spec_u64_to_le_bytes, u64_to_le_bytes};
use vstd::string::StringSliceAdditionalSpecFns;
use crate::notes::action::{ActionBundle, bundle_bytes};
use crate::hash::{sha256d, sha256d_spec};
use crate::bytes::{bytes32_eq, push_bytes};
use crate::notes::tree::copy_hashes;

verus! {

/// The stem origin of a secret: SHA256d of `"origin" || secret`.
pub open spec fn stem_origin_spec(secret: Seq<u8>) -> [u8; 32] {
    sha256d_spec("origin".spec_bytes() + secret)
}

/// The first `n` hops after `origin`: hop `i` is SHA256d of the previous
/// hop (the origin for the first) followed by `i` as eight little-endian bytes.
pub open spec fn stem_hops_spec(origin: [u8; 32], n: nat) -> Seq<[u8; 32]>
    decreases n,
{
    if n == 0 {
        Seq::empty()
    } else {
        let prev = stem_hops_spec(origin, (n - 1) as nat);
        let cur = if prev.len() == 0 { origin } else { prev.last() };
        prev.push(sha256d_spec(cur@ + spec_u64_to_le_bytes((n - 1) as u64)))
    }
}

proof fn lemma_stem_hops_len(origin: [u8; 32], n: nat)
    ensures
        stem_hops_spec(origin, n).len() == n,
    decreases n,
{
    if n > 0 {
        lemma_stem_hops_len(origin, (n - 1) as nat);
    }
}

/// The hops a bundle takes before it is fluffed.
#[derive(Debug)]
pub struct StemPath {
    pub origin: [u8; 32],
    pub hops: Vec<[u8; 32]>,
    pub fluff_peer: [u8; 32],
}

impl Clone for StemPath {
    fn clone(&self) -> (r: Self)
        ensures
            r.origin == self.origin,
            r.hops@ == self.hops@,
            r.fluff_peer == self.fluff_peer,
    {
        StemPath { origin: self.origin, hops: copy_hashes(self.hops.as_slice()), fluff_peer: self.fluff_peer }
    }
}

impl StemPath {
    /// The path of a secret with `hops` hops (at least one); the fluff peer is the last hop.
    pub fn from_secret(secret: &[u8], hops: usize) -> (p: Self)
        ensures
            p.origin == stem_origin_spec(secret@),
            p.hops@ == stem_hops_spec(p.origin, if hops == 0 { 1 } else { hops as nat }),
            p.hops@.len() == (if hops == 0 { 1 } else { hops as nat }),
            p.fluff_peer == p.hops@.last(),
    {
        let mut pre: Vec<u8> = Vec::new();
        push_bytes(&mut pre, "origin".as_bytes());
        push_bytes(&mut pre, secret);
        let origin = sha256d(pre.as_slice());
        let n: usize = if hops == 0 { 1 } else { hops };
        let mut hops_out: Vec<[u8; 32]> = Vec::new();
        let mut cur = origin;
        let mut i: usize = 0;
        while i < n
            invariant
                0 <= i <= n,
                origin == stem_origin_spec(secret@),
                hops_out@ == stem_hops_spec(origin, i as nat),
                cur == (if i == 0 { origin } else { hops_out@.last() }),
            decreases n - i,
        {
            proof {
                lemma_stem_hops_len(origin, i as nat);
            }
            let mut buf: Vec<u8> = Vec::new();
            push_bytes(&mut buf, &cur);
            let le = u64_to_le_bytes(i as u64);
            push_bytes(&mut buf, le.as_slice());
            cur = sha256d(buf.as_slice());
            hops_out.push(cur);
            i = i + 1;
        }
        proof {
            lemma_stem_hops_len(origin, n as nat);
        }
        let fluff_peer = hops_out[n - 1];
        StemPath { origin, hops: hops_out, fluff_peer }
    }
}

/// A stemming bundle as the relay sees it: its bytes, the hops it has made,
/// and the length of its path.
pub type StemView = (Seq<u8>, nat, nat);

#[derive(Debug)]
struct StemItem {
    bundle: ActionBundle,
    hop: usize,
    path: StemPath,
}

spec fn item_view(it: StemItem) -> StemView {
    (bundle_bytes(it.bundle), it.hop as nat, it.path.hops@.len())
}

/// The bundles a tick fluffs: those whose next hop uses up their path, in order.
pub open spec fn fluffed_spec(items: Seq<StemView>) -> Seq<Seq<u8>>
    decreases items.len(),
{
    if items.len() == 0 {
        Seq::empty()
    } else {
        let prev = fluffed_spec(items.drop_last());
        let it = items.last();
        if it.1 + 1 >= it.2 { prev.push(it.0) } else { prev }
    }
}

/// The bundles that keep stemming after a tick, one hop further, in order.
pub open spec fn advanced_spec(items: Seq<StemView>) -> Seq<StemView>
    decreases items.len(),
{
    if items.len() == 0 {
        Seq::empty()
    } else {
        let prev = advanced_spec(items.drop_last());
        let it = items.last();
        if it.1 + 1 >= it.2 { prev } else { prev.push((it.0, it.1 + 1, it.2)) }
    }
}

/// The stem and fluff pools of the relay, with the ids it has seen.
#[derive(Debug)]
pub struct RelayNet {
    stem: Vec<StemItem>,
    fluff: Vec<ActionBundle>,
    seen: Vec<[u8; 32]>,
}

impl RelayNet {
    /// Every stemming bundle is short of the end of a non-empty path.
    #[verifier::type_invariant]
    spec fn wf(self) -> bool {
        forall|i: int| 0 <= i < self.stem@.len() ==> (#[trigger] self.stem@[i]).hop < self.stem@[i].path.hops@.len()
    }

    /// The stemming bundles, in arrival order.
    pub closed spec fn stem_view(&self) -> Seq<StemView> {
        self.stem@.map_values(|it: StemItem| item_view(it))
    }

    /// The bytes of the fluffed bundles, in order.
    pub closed spec fn fluff_view(&self) -> Seq<Seq<u8>> {
        self.fluff@.map_values(|b: ActionBundle| bundle_bytes(b))
    }

    /// The ids of the bundles ever ingested.
    pub closed spec fn seen_view(&self) -> Seq<[u8; 32]> {
        self.seen@
    }

    /// An empty relay.
    pub fn new() -> (r: Self)
        ensures
            r.stem_view() == Seq::<StemView>::empty(),
            r.fluff_view() == Seq::<Seq<u8>>::empty(),
            r.seen_view() == Seq::<[u8; 32]>::empty(),
    {
        let r = RelayNet { stem: Vec::new(), fluff: Vec::new(), seen: Vec::new() };
        assert(r.stem_view() =~= Seq::<StemView>::empty());
        assert(r.fluff_view() =~= Seq::<Seq<u8>>::empty());
        r
    }

    fn has_seen(&self, id: &[u8; 32]) -> (r: bool)
        ensures
            r == self.seen@.contains(*id),
    {
        let mut k: usize = 0;
        while k < self.seen.len()
            invariant
                0 <= k <= self.seen@.len(),
                forall|i: int| 0 <= i < k ==> self.seen@[i] != *id,
            decreases self.seen@.len() - k,
        {
            if bytes32_eq(&self.seen[k], id) {
                assert(self.seen@[k as int] == *id);
                return true;
            }
            k = k + 1;
        }
        false
    }

    /// Starts a bundle on its stem path. A bundle whose id was seen before is
    /// dropped; otherwise its id is remembered and it enters the stem at hop 0.
    pub fn ingest_stem(&mut self, secret: &[u8], bundle: ActionBundle, hops: usize)
        ensures
            old(self).seen_view().contains(sha256d_spec(bundle_bytes(bundle))) ==> *final(self) == *old(self),
            !old(self).seen_view().contains(sha256d_spec(bundle_bytes(bundle))) ==> {
                &&& final(self).seen_view() == old(self).seen_view().push(sha256d_spec(bundle_bytes(bundle)))
                &&& final(self).stem_view() == old(self).stem_view().push(
                        (bundle_bytes(bundle), 0nat, if hops == 0 { 1nat } else { hops as nat }))
                &&& final(self).fluff_view() == old(self).fluff_view()
            },
    {
        proof {
            use_type_invariant(&*self);
        }
        let id = bundle.id();
        if self.has_seen(&id) {
            return;
        }
        let path = StemPath::from_secret(secret, hops);
        let mut seen: Vec<[u8; 32]> = Vec::new();
        std::mem::swap(&mut seen, &mut self.seen);
        seen.push(id);
        self.seen = seen;
        let mut stem: Vec<StemItem> = Vec::new();
        std::mem::swap(&mut stem, &mut self.stem);
        stem.push(StemItem { bundle, hop: 0, path });
        self.stem = stem;
        assert(self.stem_view() =~= old(self).stem_view().push(
            (bundle_bytes(bundle), 0nat, if hops == 0 { 1nat } else { hops as nat })));
    }

    /// Advances every stemming bundle by one hop. Those whose path is used up
    /// are fluffed: appended to the fluff pool and returned, in order.
    pub fn tick(&mut self) -> (r: Vec<ActionBundle>)
        ensures
            r@.map_values(|b: ActionBundle| bundle_bytes(b)) == fluffed_spec(old(self).stem_view()),
            final(self).fluff_view() == old(self).fluff_view() + fluffed_spec(old(self).stem_view()),
            final(self).stem_view() == advanced_spec(old(self).stem_view()),
            final(self).seen_view() == old(self).seen_view(),
    {
        proof {
            use_type_invariant(&*self);
        }
        let mut fluffed: Vec<ActionBundle> = Vec::new();
        let mut next: Vec<StemItem> = Vec::new();
        let mut stem: Vec<StemItem> = Vec::new();
        std::mem::swap(&mut stem, &mut self.stem);
        let ghost items = stem@.map_values(|it: StemItem| item_view(it));
        let ghost fluff0 = self.fluff@.map_values(|b: ActionBundle| bundle_bytes(b));
        assert(items =~= old(self).stem_view());
        let n = stem.len();
        let mut k: usize = 0;
        let mut rest = stem;
        // Items are taken from the back and restored in order afterwards.
        let mut taken: Vec<StemItem> = Vec::new();
        while rest.len() > 0
            invariant
                rest@.len() + taken@.len() == n,
                n == items.len(),
                forall|i: int| 0 <= i < rest@.len() ==> item_view(#[trigger] rest@[i]) == items[i],
                forall|i: int| 0 <= i < rest@.len() ==> (#[trigger] rest@[i]).hop < rest@[i].path.hops@.len(),
                forall|i: int| 0 <= i < taken@.len() ==> item_view(#[trigger] taken@[i]) == items[n - 1 - i],
                forall|i: int| 0 <= i < taken@.len() ==> (#[trigger] taken@[i]).hop < taken@[i].path.hops@.len(),
            decreases rest@.len(),
        {
            let it = rest.pop().unwrap();
            taken.push(it);
        }
        while taken.len() > 0
            invariant
                0 <= k <= n,
                n == items.len(),
                taken@.len() + k == n,
                forall|i: int| 0 <= i < taken@.len() ==> item_view(#[trigger] taken@[i]) == items[n - 1 - i],
                forall|i: int| 0 <= i < taken@.len() ==> (#[trigger] taken@[i]).hop < taken@[i].path.hops@.len(),
                fluffed@.map_values(|b: ActionBundle| bundle_bytes(b)) == fluffed_spec(items.subrange(0, k as int)),
                self.fluff@.map_values(|b: ActionBundle| bundle_bytes(b)) == fluff0 + fluffed_spec(items.subrange(0, k as int)),
                next@.map_values(|it: StemItem| item_view(it)) == advanced_spec(items.subrange(0, k as int)),
                forall|i: int| 0 <= i < next@.len() ==> (#[trigger] next@[i]).hop < next@[i].path.hops@.len(),
                self.seen@ == old(self).seen@,
                self.stem@.len() == 0,
            decreases taken@.len(),
        {
            let mut item = taken.pop().unwrap();
            let ghost iv = items[k as int];
            assert(item_view(item) == iv);
            let ghost pre = items.subrange(0, k as int);
            let ghost post = items.subrange(0, k as int + 1);
            assert(post.drop_last() =~= pre);
            assert(post.last() == iv);
            let ghost f_before = fluffed@.map_values(|b: ActionBundle| bundle_bytes(b));
            let ghost p_before = self.fluff@.map_values(|b: ActionBundle| bundle_bytes(b));
            let ghost n_before = next@.map_values(|it: StemItem| item_view(it));
            let len = item.path.hops.len();
            item.hop = item.hop + 1;
            if item.hop >= len {
                let copy = item.bundle.clone();
                let mut pool: Vec<ActionBundle> = Vec::new();
                std::mem::swap(&mut pool, &mut self.fluff);
                pool.push(copy);
                self.fluff = pool;
                fluffed.push(item.bundle);
                assert(fluffed@.map_values(|b: ActionBundle| bundle_bytes(b)) =~= f_before.push(iv.0));
                assert(self.fluff@.map_values(|b: ActionBundle| bundle_bytes(b)) =~= p_before.push(iv.0));
            } else {
                next.push(item);
                assert(fluffed@.map_values(|b: ActionBundle| bundle_bytes(b)) =~= f_before);
                assert(self.fluff@.map_values(|b: ActionBundle| bundle_bytes(b)) =~= p_before);
                assert(next@.map_values(|it: StemItem| item_view(it)) =~= n_before.push((iv.0, iv.1 + 1, iv.2)));
            }
            k = k + 1;
        }
        assert(items.subrange(0, n as int) =~= items);
        self.stem = next;
        fluffed
    }

    /// The fluffed bundles.
    pub fn fluff_pool(&self) -> (r: &[ActionBundle])
        ensures
            r@.map_values(|b: ActionBundle| bundle_bytes(b)) == self.fluff_view(),
    {
        self.fluff.as_slice()
    }

    /// How many bundles are still stemming.
    pub fn stemming(&self) -> (r: usize)
        ensures
            r == self.stem_view().len(),
    {
        self.stem.len()
    }
}

/// Law: a tick splits the stem: every stemming bundle is either fluffed or
/// kept, so the counts add up.
pub proof fn lemma_tick_partitions(items: Seq<StemView>)
    ensures
        fluffed_spec(items).len() + advanced_spec(items).len() == items.len(),
    decreases items.len(),
{
    if items.len() > 0 {
        lemma_tick_partitions(items.drop_last());
    }
}

/// Law: a bundle ingested with `h` hops is fluffed by the tick that makes
/// its `h`-th hop and not before: at hop `k < h` it is fluffed by the next
/// tick exactly when `k + 1 == h`, and otherwise moves on to hop `k + 1`.
pub proof fn lemma_single_item_tick(bytes: Seq<u8>, k: nat, h: nat)
    requires
        k < h,
    ensures
        fluffed_spec(seq![(bytes, k, h)]) == (if k + 1 == h { seq![bytes] } else { Seq::<Seq<u8>>::empty() }),
        advanced_spec(seq![(bytes, k, h)]) == (if k + 1 == h { Seq::<StemView>::empty() } else { seq![(bytes, k + 1, h)] }),
{
    let s = seq![(bytes, k, h)];
    let e = Seq::<StemView>::empty();
    assert(s.drop_last() =~= e);
    assert(s.last() == (bytes, k, h));
    assert(fluffed_spec(e) == Seq::<Seq<u8>>::empty());
    assert(advanced_spec(e) == Seq::<StemView>::empty());
    if k + 1 == h {
        assert(fluffed_spec(s) =~= seq![bytes]);
    } else {
        assert(advanced_spec(s) =~= seq![(bytes, k + 1, h)]);
    }
}

} // verus!
