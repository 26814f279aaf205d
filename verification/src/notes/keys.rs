//! Spend and scan keys. The destination of a note is `sk·G`; a wallet seed
//! is hashed to the scalar, so a ticket string never is the key.

use vstd::prelude::*;
use vstd::string::StringSliceAdditionalSpecFns;
use crate::hash::{sha512_digest, sha512_spec};
use crate::crypto::{scalar_wide, scalar_wide_spec, basepoint_mul, basepoint_mul_spec, point_mul, point_mul_spec,
    point_valid, is_point_spec, basepoint, basepoint_spec};
use crate::bytes::{push_bytes, first32, first32_spec};

verus! {

/// The scalar of a preimage: SHA-512 of it, reduced modulo the group order.
pub open spec fn hash_scalar_spec(pre: Seq<u8>) -> [u8; 32] {
    scalar_wide_spec(sha512_spec(pre)@)
}

/// The scalar of a preimage: SHA-512 of it, reduced modulo the group order.
pub fn hash_scalar(pre: &[u8]) -> (r: [u8; 32])
    ensures
        r == hash_scalar_spec(pre@),
{
    let h = sha512_digest(pre);
    scalar_wide(&h)
}

/// The first half of the SHA-512 of a preimage.
pub open spec fn hash_half_spec(pre: Seq<u8>) -> [u8; 32] {
    first32_spec(sha512_spec(pre))
}

/// The first half of the SHA-512 of a preimage.
pub fn hash_half(pre: &[u8]) -> (r: [u8; 32])
    ensures
        r == hash_half_spec(pre@),
{
    let h = sha512_digest(pre);
    first32(&h)
}

/// A spend key: a scalar, encoded.
#[derive(Clone, Copy, Debug)]
pub struct SpendKey {
    pub sk: [u8; 32],
}

/// Compressed Ristretto encoding of a spend public key.
#[derive(Clone, Copy, Debug, PartialEq, Eq)]
pub struct SpendPk {
    pub bytes: [u8; 32],
}

/// A scan key: a scalar, encoded.
#[derive(Clone, Copy, Debug)]
pub struct ScanKey {
    pub sk: [u8; 32],
}

fn labelled(label: &str, data: &[u8]) -> (r: Vec<u8>)
    ensures
        r@ == label.spec_bytes() + data@,
{
    let mut buf: Vec<u8> = Vec::new();
    push_bytes(&mut buf, label.as_bytes());
    push_bytes(&mut buf, data);
    assert(buf@ =~= label.spec_bytes() + data@);
    buf
}

impl SpendKey {
    /// The nullifier of a note commitment under this key.
    pub open spec fn nullifier_spec(&self, cm: [u8; 32]) -> [u8; 32] {
        hash_half_spec("nf".spec_bytes() + self.sk@ + cm@)
    }

    /// The spend key of a wallet seed: the scalar of `"spend-sk" || seed`.
    pub fn from_wallet_seed(seed: &[u8]) -> (k: Self)
        ensures
            k.sk == hash_scalar_spec("spend-sk".spec_bytes() + seed@),
    {
        let pre = labelled("spend-sk", seed);
        SpendKey { sk: hash_scalar(pre.as_slice()) }
    }

    /// The public key `sk·G`.
    pub fn pk(&self) -> (p: SpendPk)
        ensures
            p.bytes == basepoint_mul_spec(self.sk),
            is_point_spec(p.bytes),
    {
        SpendPk { bytes: basepoint_mul(&self.sk) }
    }

    /// The nullifier of a note commitment: the first half of SHA-512 of
    /// `"nf" || sk || cm`. One key and one commitment give one nullifier.
    pub fn nullifier(&self, cm: &[u8; 32]) -> (nf: [u8; 32])
        ensures
            nf == self.nullifier_spec(*cm),
    {
        let mut buf: Vec<u8> = Vec::new();
        push_bytes(&mut buf, "nf".as_bytes());
        push_bytes(&mut buf, &self.sk);
        push_bytes(&mut buf, cm);
        assert(buf@ =~= "nf".spec_bytes() + self.sk@ + cm@);
        hash_half(buf.as_slice())
    }
}

/// The point a key encodes, or the basepoint when it encodes none.
pub open spec fn pk_point_spec(b: [u8; 32]) -> [u8; 32] {
    if is_point_spec(b) { b } else { basepoint_spec() }
}

impl SpendPk {
    /// The point of the key; the basepoint when the bytes encode no point.
    pub fn point(&self) -> (r: [u8; 32])
        ensures
            r == pk_point_spec(self.bytes),
            is_point_spec(r),
    {
        if point_valid(&self.bytes) { self.bytes } else { basepoint() }
    }
}

/// The ECDH point a scan key shares with an ephemeral key: `sk·E`, with the
/// basepoint standing in for an ephemeral key that encodes no point.
pub open spec fn shared_point_spec(sk: [u8; 32], eph_pk: [u8; 32]) -> [u8; 32] {
    if is_point_spec(eph_pk) { point_mul_spec(sk, eph_pk) } else { basepoint_mul_spec(sk) }
}

/// The scan tag of an output: the first half of SHA-512 of
/// `"scan-tag" || shared point || diversifier`.
pub open spec fn scan_tag_spec(sk: [u8; 32], eph_pk: [u8; 32], diversifier: [u8; 16]) -> [u8; 32] {
    hash_half_spec("scan-tag".spec_bytes() + shared_point_spec(sk, eph_pk)@ + diversifier@)
}

impl ScanKey {
    /// The scan key of a wallet seed: the scalar of `"scan-sk" || seed`.
    pub fn from_wallet_seed(seed: &[u8]) -> (k: Self)
        ensures
            k.sk == hash_scalar_spec("scan-sk".spec_bytes() + seed@),
    {
        let pre = labelled("scan-sk", seed);
        ScanKey { sk: hash_scalar(pre.as_slice()) }
    }

    /// The public scan key `sk·G`.
    pub fn pk_bytes(&self) -> (r: [u8; 32])
        ensures
            r == basepoint_mul_spec(self.sk),
    {
        basepoint_mul(&self.sk)
    }

    /// The diversified tag of an output: ECDH with the ephemeral key, hashed
    /// with the diversifier. Never a fixed counter.
    pub fn tag(&self, eph_pk: &[u8; 32], diversifier: &[u8; 16]) -> (r: [u8; 32])
        ensures
            r == scan_tag_spec(self.sk, *eph_pk, *diversifier),
    {
        let shared = if point_valid(eph_pk) { point_mul(&self.sk, eph_pk) } else { basepoint_mul(&self.sk) };
        let mut buf: Vec<u8> = Vec::new();
        push_bytes(&mut buf, "scan-tag".as_bytes());
        push_bytes(&mut buf, &shared);
        push_bytes(&mut buf, diversifier);
        assert(buf@ =~= "scan-tag".spec_bytes() + shared_point_spec(self.sk, *eph_pk)@ + diversifier@);
        hash_half(buf.as_slice())
    }
}

/// The note id committed to the living window: the first half of SHA-512 of
/// `"note-id" || cm || dest || asset scalar`. Not the raw value commitment.
pub open spec fn note_id_spec(cm: [u8; 32], dest: SpendPk, asset_scalar: [u8; 32]) -> [u8; 32] {
    hash_half_spec("note-id".spec_bytes() + cm@ + dest.bytes@ + asset_scalar@)
}

/// The note id of a commitment, its destination and its asset scalar.
pub fn note_id(cm: &[u8; 32], dest: &SpendPk, asset_scalar: &[u8; 32]) -> (r: [u8; 32])
    ensures
        r == note_id_spec(*cm, *dest, *asset_scalar),
{
    let mut buf: Vec<u8> = Vec::new();
    push_bytes(&mut buf, "note-id".as_bytes());
    push_bytes(&mut buf, cm);
    push_bytes(&mut buf, &dest.bytes);
    push_bytes(&mut buf, asset_scalar);
    assert(buf@ =~= "note-id".spec_bytes() + cm@ + dest.bytes@ + asset_scalar@);
    hash_half(buf.as_slice())
}

} // verus!
