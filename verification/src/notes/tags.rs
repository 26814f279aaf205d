//! Spend-tag (nullifier) set. Duplicate tags are double-spends.

use vstd::prelude::*;
use crate::hash::{sha256d, sha256d_spec};
use crate::bytes::push_bytes;
use crate::order::{strictly_sorted, sorted_insert, sorted_contains, lemma_strictly_sorted_is_sorted};
use crate::notes::tree::{zero32, copy_hashes};
use vstd::string::StringSliceAdditionalSpecFns;

verus! {

/// The tags of a set, concatenated in order.
pub open spec fn concat_tags(tags: Seq<[u8; 32]>) -> Seq<u8>
    decreases tags.len(),
{
    if tags.len() == 0 {
        Seq::empty()
    } else {
        concat_tags(tags.drop_last()) + tags.last()@
    }
}

/// Root of a set listed in order: all zero when empty, else SHA256d of the concatenated tags.
pub open spec fn tags_root_spec(tags: Seq<[u8; 32]>) -> [u8; 32] {
    if tags.len() == 0 { zero32() } else { sha256d_spec(concat_tags(tags)) }
}

/// The bytes hashed to derive a spend tag.
pub open spec fn spend_tag_preimage(spend_secret: [u8; 32], note_commitment: [u8; 32]) -> Seq<u8> {
    "spend-tag".spec_bytes() + spend_secret@ + note_commitment@
}

/// The set of spend tags seen so far, listed in increasing byte order.
#[derive(Debug)]
pub struct SpendTagSet {
    tags: Vec<[u8; 32]>,
}

impl View for SpendTagSet {
    type V = Seq<[u8; 32]>;

    closed spec fn view(&self) -> Seq<[u8; 32]> {
        self.tags@
    }
}

impl Clone for SpendTagSet {
    fn clone(&self) -> (r: Self)
        ensures
            r@ == self@,
    {
        proof {
            use_type_invariant(self);
        }
        SpendTagSet { tags: copy_hashes(self.tags.as_slice()) }
    }
}

impl SpendTagSet {
    #[verifier::type_invariant]
    closed spec fn wf(&self) -> bool {
        strictly_sorted(self.tags@)
    }

    /// An empty set.
    pub fn new() -> (s: Self)
        ensures
            s@ == Seq::<[u8; 32]>::empty(),
    {
        SpendTagSet { tags: Vec::new() }
    }

    /// Number of tags.
    pub fn len(&self) -> (r: usize)
        ensures
            r == self@.len(),
            strictly_sorted(self@),
    {
        proof {
            use_type_invariant(self);
        }
        self.tags.len()
    }

    /// Whether no tag has been seen.
    pub fn is_empty(&self) -> (r: bool)
        ensures
            r == (self@.len() == 0),
    {
        self.tags.len() == 0
    }

    /// Whether the tag has been seen.
    pub fn contains(&self, tag: &[u8; 32]) -> (r: bool)
        ensures
            r == self@.contains(*tag),
    {
        proof {
            use_type_invariant(self);
            lemma_strictly_sorted_is_sorted(self.tags@);
        }
        sorted_contains(self.tags.as_slice(), tag)
    }

    /// Records a tag; a tag already seen is a double spend and is refused.
    pub fn insert(&mut self, tag: [u8; 32]) -> (r: Result<(), &'static str>)
        ensures
            r is Err <==> old(self)@.contains(tag),
            r matches Err(e) ==> e@ == "duplicate spend tag"@ && final(self)@ == old(self)@,
            strictly_sorted(final(self)@),
            r is Ok ==> final(self)@.to_set() == old(self)@.to_set().insert(tag)
                && final(self)@.len() == old(self)@.len() + 1,
    {
        proof {
            use_type_invariant(&*self);
        }
        let mut tags: Vec<[u8; 32]> = Vec::new();
        std::mem::swap(&mut tags, &mut self.tags);
        let inserted = sorted_insert(&mut tags, tag);
        self.tags = tags;
        if !inserted {
            return Err("duplicate spend tag");
        }
        Ok(())
    }

    /// All zero when empty, else SHA256d of the tags concatenated in increasing order.
    pub fn root(&self) -> (r: [u8; 32])
        ensures
            r == tags_root_spec(self@),
            strictly_sorted(self@),
    {
        proof {
            use_type_invariant(self);
        }
        let mut acc: Vec<u8> = Vec::new();
        let mut k: usize = 0;
        while k < self.tags.len()
            invariant
                0 <= k <= self.tags@.len(),
                acc@ == concat_tags(self.tags@.subrange(0, k as int)),
            decreases self.tags@.len() - k,
        {
            let ghost before = acc@;
            push_bytes(&mut acc, &self.tags[k]);
            proof {
                let s = self.tags@.subrange(0, k as int + 1);
                assert(s.drop_last() =~= self.tags@.subrange(0, k as int));
                assert(s.last() == self.tags@[k as int]);
            }
            k = k + 1;
        }
        assert(self.tags@.subrange(0, self.tags@.len() as int) =~= self.tags@);
        if acc.len() == 0 {
            proof {
                if self.tags@.len() > 0 {
                    assert(concat_tags(self.tags@).len() >= 32) by {
                        lemma_concat_tags_len(self.tags@);
                    }
                }
            }
            [0u8; 32]
        } else {
            sha256d(acc.as_slice())
        }
    }

    /// SHA256d of `"spend-tag" || spend_secret || note_commitment`.
    pub fn derive(spend_secret: &[u8; 32], note_commitment: &[u8; 32]) -> (r: [u8; 32])
        ensures
            r == sha256d_spec(spend_tag_preimage(*spend_secret, *note_commitment)),
    {
        let mut buf: Vec<u8> = Vec::new();
        push_bytes(&mut buf, "spend-tag".as_bytes());
        push_bytes(&mut buf, spend_secret);
        push_bytes(&mut buf, note_commitment);
        sha256d(buf.as_slice())
    }
}

proof fn lemma_concat_tags_len(tags: Seq<[u8; 32]>)
    ensures
        concat_tags(tags).len() == 32 * tags.len(),
    decreases tags.len(),
{
    if tags.len() > 0 {
        lemma_concat_tags_len(tags.drop_last());
    }
}

/// Law: a tag, once inserted, is refused when inserted again.
pub proof fn lemma_second_insert_refused(before: Seq<[u8; 32]>, after: Seq<[u8; 32]>, tag: [u8; 32])
    requires
        after.to_set() == before.to_set().insert(tag),
    ensures
        after.contains(tag),
{
    assert(after.to_set().contains(tag));
}

} // verus!
