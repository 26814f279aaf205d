//! Scanning by diversified ECDH tag, not a reused counter: each real output
//! of a bundle is filed under the tag the scan key computes for it.

use vstd::prelude::*;
use crate::notes::action::{ActionBundle, CompactOutput, real_outputs_spec};
use crate::notes::keys::{ScanKey, scan_tag_spec};
use crate::bytes::bytes32_eq;

verus! {

/// Where and to whom a scanned output was paid.
#[derive(Clone, Copy, Debug, PartialEq, Eq)]
pub struct TagHit {
    pub height: u64,
    pub dest: [u8; 32],
    pub commitment: [u8; 32],
}

#[derive(Debug)]
struct TagEntry {
    tag: [u8; 32],
    hits: Vec<TagHit>,
}

/// The hits of a list of outputs under one tag, in order.
pub open spec fn hits_for(outs: Seq<CompactOutput>, sk: [u8; 32], height: u64, tag: [u8; 32]) -> Seq<TagHit>
    decreases outs.len(),
{
    if outs.len() == 0 {
        Seq::empty()
    } else {
        let prev = hits_for(outs.drop_last(), sk, height, tag);
        let o = outs.last();
        if scan_tag_spec(sk, o.eph_pk, o.diversifier) == tag {
            prev.push(TagHit { height, dest: o.dest.bytes, commitment: o.value_commitment.commitment })
        } else {
            prev
        }
    }
}

spec fn tags_distinct(es: Seq<TagEntry>) -> bool {
    forall|i: int, j: int| 0 <= i < j < es.len() ==> es[i].tag != es[j].tag
}

spec fn entries_hits(es: Seq<TagEntry>, tag: [u8; 32]) -> Seq<TagHit> {
    if exists|i: int| 0 <= i < es.len() && es[i].tag == tag {
        es[choose|i: int| 0 <= i < es.len() && es[i].tag == tag].hits@
    } else {
        Seq::empty()
    }
}

proof fn lemma_entries_hits_at(es: Seq<TagEntry>, tag: [u8; 32], j: int)
    requires
        tags_distinct(es),
        0 <= j < es.len(),
        es[j].tag == tag,
    ensures
        entries_hits(es, tag) == es[j].hits@,
{
    let c = choose|i: int| 0 <= i < es.len() && es[i].tag == tag;
    assert(0 <= c < es.len() && es[c].tag == tag);
    if c != j {
        if c < j {
            assert(es[c].tag != es[j].tag);
        } else {
            assert(es[j].tag != es[c].tag);
        }
    }
}

proof fn lemma_entries_hits_none(es: Seq<TagEntry>, tag: [u8; 32])
    requires
        forall|i: int| 0 <= i < es.len() ==> es[i].tag != tag,
    ensures
        entries_hits(es, tag) == Seq::<TagHit>::empty(),
{
}

fn find_tag(es: &Vec<TagEntry>, tag: &[u8; 32]) -> (r: Option<usize>)
    ensures
        r matches Some(i) ==> i < es@.len() && es@[i as int].tag == *tag,
        r is None ==> forall|i: int| 0 <= i < es@.len() ==> es@[i].tag != *tag,
{
    let mut k: usize = 0;
    while k < es.len()
        invariant
            0 <= k <= es@.len(),
            forall|i: int| 0 <= i < k ==> es@[i].tag != *tag,
        decreases es@.len() - k,
    {
        if bytes32_eq(&es[k].tag, tag) {
            return Some(k);
        }
        k = k + 1;
    }
    None
}

/// Hits filed by scan tag.
#[derive(Debug)]
pub struct TagIndex {
    entries: Vec<TagEntry>,
}

impl TagIndex {
    /// No tag is filed twice.
    #[verifier::type_invariant]
    spec fn wf(self) -> bool {
        tags_distinct(self.entries@)
    }

    /// The hits filed under a tag, in the order they were ingested.
    pub closed spec fn hits(&self, tag: [u8; 32]) -> Seq<TagHit> {
        entries_hits(self.entries@, tag)
    }

    /// An empty index.
    pub fn new() -> (r: Self)
        ensures
            forall|t: [u8; 32]| r.hits(t) == Seq::<TagHit>::empty(),
    {
        let r = TagIndex { entries: Vec::new() };
        proof {
            assert forall|t: [u8; 32]| r.hits(t) == Seq::<TagHit>::empty() by {
                lemma_entries_hits_none(r.entries@, t);
            }
        }
        r
    }


    fn file(&mut self, tag: [u8; 32], hit: TagHit)
        ensures
            final(self).hits(tag) == old(self).hits(tag).push(hit),
            forall|t: [u8; 32]| t != tag ==> final(self).hits(t) == old(self).hits(t),
    {
        proof {
            use_type_invariant(&*self);
        }
        let mut entries: Vec<TagEntry> = Vec::new();
        std::mem::swap(&mut entries, &mut self.entries);
        let ghost old_entries = entries@;
        let found = find_tag(&entries, &tag);
        let ghost olds = *old(self);
        proof {
            assert(olds.entries@ == old_entries);
        }
        match found {
            Some(i) => {
                let mut hits: Vec<TagHit> = Vec::new();
                let mut m: usize = 0;
                while m < entries[i].hits.len()
                    invariant
                        0 <= m <= entries@[i as int].hits@.len(),
                        i < entries@.len(),
                        hits@ == entries@[i as int].hits@.subrange(0, m as int),
                    decreases entries@[i as int].hits@.len() - m,
                {
                    hits.push(entries[i].hits[m]);
                    m = m + 1;
                    assert(hits@ =~= entries@[i as int].hits@.subrange(0, m as int));
                }
                assert(entries@[i as int].hits@.subrange(0, m as int) =~= entries@[i as int].hits@);
                hits.push(hit);
                entries.set(i, TagEntry { tag, hits });
                proof {
                    assert(tags_distinct(entries@)) by {
                        assert forall|a: int, b: int| 0 <= a < b < entries@.len() implies entries@[a].tag != entries@[b].tag by {
                            assert(entries@[a].tag == old_entries[a].tag);
                            assert(entries@[b].tag == old_entries[b].tag);
                        }
                    }
                    lemma_entries_hits_at(entries@, tag, i as int);
                    lemma_entries_hits_at(old_entries, tag, i as int);
                    assert forall|t: [u8; 32]| t != tag implies entries_hits(entries@, t) == entries_hits(old_entries, t) by {
                        if exists|j: int| 0 <= j < old_entries.len() && old_entries[j].tag == t {
                            let j = choose|j: int| 0 <= j < old_entries.len() && old_entries[j].tag == t;
                            lemma_entries_hits_at(old_entries, t, j);
                            assert(entries@[j] == old_entries[j]);
                            lemma_entries_hits_at(entries@, t, j);
                        } else {
                            assert forall|j: int| 0 <= j < entries@.len() implies entries@[j].tag != t by {
                                assert(entries@[j].tag == old_entries[j].tag);
                            }
                        }
                    }
                }
            },
            None => {
                entries.push(TagEntry { tag, hits: vec![hit] });
                proof {
                    let n = old_entries.len() as int;
                    assert(entries@[n].hits@ =~= seq![hit]);
                    assert(tags_distinct(entries@)) by {
                        assert forall|a: int, b: int| 0 <= a < b < entries@.len() implies entries@[a].tag != entries@[b].tag by {
                            if b < n {
                                assert(entries@[a] == old_entries[a]);
                                assert(entries@[b] == old_entries[b]);
                            } else {
                                assert(entries@[a] == old_entries[a]);
                                assert(old_entries[a].tag != tag);
                            }
                        }
                    }
                    lemma_entries_hits_at(entries@, tag, n);
                    lemma_entries_hits_none(old_entries, tag);
                    assert(Seq::<TagHit>::empty().push(hit) =~= seq![hit]);
                    assert forall|t: [u8; 32]| t != tag implies entries_hits(entries@, t) == entries_hits(old_entries, t) by {
                        if exists|j: int| 0 <= j < old_entries.len() && old_entries[j].tag == t {
                            let j = choose|j: int| 0 <= j < old_entries.len() && old_entries[j].tag == t;
                            lemma_entries_hits_at(old_entries, t, j);
                            assert(entries@[j] == old_entries[j]);
                            lemma_entries_hits_at(entries@, t, j);
                        } else {
                            assert forall|j: int| 0 <= j < entries@.len() implies entries@[j].tag != t by {
                                if j < n {
                                    assert(entries@[j] == old_entries[j]);
                                }
                            }
                        }
                    }
                }
            },
        }
        self.entries = entries;
    }

    /// Files every real output of the bundle under the tag the scan key
    /// computes from its ephemeral key and diversifier.
    pub fn ingest_for_scan(&mut self, height: u64, bundle: &ActionBundle, scan: &ScanKey)
        ensures
            forall|t: [u8; 32]| final(self).hits(t) == old(self).hits(t) + hits_for(real_outputs_spec(bundle.actions@), scan.sk, height, t),
    {
        let outs = bundle.real_outputs();
        let ghost all = real_outputs_spec(bundle.actions@);
        let mut k: usize = 0;
        while k < outs.len()
            invariant
                0 <= k <= outs@.len(),
                outs@.len() == all.len(),
                forall|i: int| 0 <= i < outs@.len() ==> *(#[trigger] outs@[i]) == all[i],
                forall|t: [u8; 32]| self.hits(t) == old(self).hits(t) + hits_for(all.subrange(0, k as int), scan.sk, height, t),
            decreases outs@.len() - k,
        {
            let o = outs[k];
            let tag = scan.tag(&o.eph_pk, &o.diversifier);
            let hit = TagHit { height, dest: o.dest.bytes, commitment: o.value_commitment.commitment };
            let ghost before = *self;
            self.file(tag, hit);
            proof {
                let s = all.subrange(0, k as int + 1);
                assert(s.drop_last() =~= all.subrange(0, k as int));
                assert(s.last() == all[k as int]);
                assert forall|t: [u8; 32]| self.hits(t) == old(self).hits(t) + hits_for(s, scan.sk, height, t) by {
                    if t == tag {
                        assert(old(self).hits(t) + hits_for(s, scan.sk, height, t)
                            =~= (old(self).hits(t) + hits_for(all.subrange(0, k as int), scan.sk, height, t)).push(hit));
                    } else {
                        assert(before.hits(t) == self.hits(t));
                    }
                }
            }
            k = k + 1;
        }
        assert(all.subrange(0, all.len() as int) =~= all);
    }

    /// The hits filed under a tag; empty when none.
    pub fn lookup(&self, tag: &[u8; 32]) -> (r: &[TagHit])
        ensures
            r@ == self.hits(*tag),
    {
        proof {
            use_type_invariant(self);
        }
        match find_tag(&self.entries, tag) {
            Some(i) => {
                proof {
                    lemma_entries_hits_at(self.entries@, *tag, i as int);
                }
                self.entries[i].hits.as_slice()
            },
            None => {
                proof {
                    lemma_entries_hits_none(self.entries@, *tag);
                }
                let e: &[TagHit] = &[];
                assert(e@ =~= Seq::<TagHit>::empty());
                e
            },
        }
    }
}

} // verus!
