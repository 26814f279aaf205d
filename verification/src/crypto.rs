//! Ristretto group and scalar operations from `curve25519-dalek`, on byte
//! encodings: points as 32-byte compressed encodings, scalars as their
//! 32-byte little-endian canonical encodings.
//!
//! A point encoding is valid when `CompressedRistretto::decompress` accepts
//! it; the operations on points ask for valid encodings and give valid ones.
//! Scalars handed to these operations are reduced with
//! `Scalar::from_bytes_mod_order` first, which leaves canonical encodings
//! (all that these operations return) unchanged.

use vstd::prelude::*;
use vstd::bytes::spec_u64_to_le_bytes;
use curve25519_dalek::constants::{RISTRETTO_BASEPOINT_COMPRESSED, RISTRETTO_BASEPOINT_POINT};
use curve25519_dalek::ristretto::{CompressedRistretto, RistrettoPoint};
use curve25519_dalek::scalar::Scalar;
use curve25519_dalek::traits::Identity;

verus! {

/// The compressed encoding of `RistrettoPoint::from_uniform_bytes(wide)`.
pub uninterp spec fn ristretto_from_uniform_spec(wide: Seq<u8>) -> [u8; 32];

/// Whether `CompressedRistretto(b).decompress()` is `Some`: `b` is the
/// canonical encoding of a point.
pub uninterp spec fn is_point_spec(b: [u8; 32]) -> bool;

/// `Scalar::from_bytes_mod_order_wide(wide).to_bytes()`.
pub uninterp spec fn scalar_wide_spec(wide: Seq<u8>) -> [u8; 32];

/// `Scalar::from_bytes_mod_order(b).to_bytes()`.
pub uninterp spec fn scalar_reduce_spec(b: [u8; 32]) -> [u8; 32];

/// The encoding of the sum of two scalars.
pub uninterp spec fn scalar_add_spec(a: [u8; 32], b: [u8; 32]) -> [u8; 32];

/// The encoding of the difference of two scalars.
pub uninterp spec fn scalar_sub_spec(a: [u8; 32], b: [u8; 32]) -> [u8; 32];

/// The encoding of the product of two scalars.
pub uninterp spec fn scalar_mul_spec(a: [u8; 32], b: [u8; 32]) -> [u8; 32];

/// The compressed sum of two points.
pub uninterp spec fn point_add_spec(a: [u8; 32], b: [u8; 32]) -> [u8; 32];

/// The compressed difference of two points.
pub uninterp spec fn point_sub_spec(a: [u8; 32], b: [u8; 32]) -> [u8; 32];

/// The compressed multiple `s·P` of a point.
pub uninterp spec fn point_mul_spec(s: [u8; 32], p: [u8; 32]) -> [u8; 32];

/// The compressed multiple `s·G` of the Ristretto basepoint.
pub uninterp spec fn basepoint_mul_spec(s: [u8; 32]) -> [u8; 32];

/// The compressed Ristretto basepoint, as `RISTRETTO_BASEPOINT_COMPRESSED` spells it.
pub open spec fn basepoint_spec() -> [u8; 32] {
    [
        0xe2, 0xf2, 0xae, 0x0a, 0x6a, 0xbc, 0x4e, 0x71, 0xa8, 0x84, 0xa9, 0x61, 0xc5, 0x00, 0x51, 0x5f,
        0x58, 0xe3, 0x0b, 0x6a, 0xa5, 0x82, 0xdd, 0x8d, 0xb6, 0xa6, 0x59, 0x45, 0xe0, 0x8d, 0x2d, 0x76,
    ]
}

/// `RISTRETTO_BASEPOINT_COMPRESSED`: the bytes its definition spells out,
/// the encoding of the basepoint, hence valid.
#[verifier::external_body]
pub(crate) fn basepoint() -> (r: [u8; 32])
    ensures
        r == basepoint_spec(),
        is_point_spec(r),
{
    RISTRETTO_BASEPOINT_COMPRESSED.to_bytes()
}

/// The encoding of `Scalar::from(v)`: `v` in eight little-endian bytes, then zeros.
pub open spec fn scalar_from_u64_spec(v: u64) -> [u8; 32] {
    choose|r: [u8; 32]| r@ == spec_u64_to_le_bytes(v) + Seq::new(24, |i: int| 0u8)
}

/// `Scalar::from(v).to_bytes()`, which writes `v` little endian into the
/// low eight bytes of an otherwise zero encoding.
pub fn scalar_from_u64(v: u64) -> (r: [u8; 32])
    ensures
        r@ == spec_u64_to_le_bytes(v) + Seq::new(24, |i: int| 0u8),
        r == scalar_from_u64_spec(v),
{
    let le = vstd::bytes::u64_to_le_bytes(v);
    let mut r = [0u8; 32];
    let mut i: usize = 0;
    while i < 8
        invariant
            0 <= i <= 8,
            le@ == spec_u64_to_le_bytes(v),
            le@.len() == 8,
            forall|j: int| 0 <= j < i ==> r@[j] == le@[j],
            forall|j: int| 8 <= j < 32 ==> r@[j] == 0u8,
        decreases 8 - i,
    {
        r.set(i, le[i]);
        i = i + 1;
    }
    assert(r@ =~= spec_u64_to_le_bytes(v) + Seq::new(24, |i: int| 0u8));
    proof {
        let c = scalar_from_u64_spec(v);
        assert(exists|x: [u8; 32]| x@ == spec_u64_to_le_bytes(v) + Seq::new(24, |i: int| 0u8)) by {
            assert(r@ == spec_u64_to_le_bytes(v) + Seq::new(24, |i: int| 0u8));
        }
        assert(c@ == r@);
        assert forall|i: int| 0 <= i < 32 implies c[i] == r[i] by {
            assert(c@[i] == r@[i]);
        }
        vstd::array::axiom_array_ext_equal(c, r);
        assert(c =~= r);
    }
    r
}

/// `RistrettoPoint::from_uniform_bytes`, returned compressed: the encoding
/// of the point the 64 bytes map to, which is a valid encoding.
#[verifier::external_body]
pub(crate) fn ristretto_from_uniform(wide: &[u8; 64]) -> (r: [u8; 32])
    ensures
        r == ristretto_from_uniform_spec(wide@),
        is_point_spec(r),
{
    RistrettoPoint::from_uniform_bytes(wide).compress().to_bytes()
}

/// `RistrettoPoint::identity().compress()`: the identity compresses to 32 zero
/// bytes (the crate's own tests check `id.compress() == CompressedRistretto::identity()`,
/// and `CompressedRistretto::identity()` is `[0u8; 32]`), which is a valid encoding.
#[verifier::external_body]
pub(crate) fn ristretto_identity() -> (r: [u8; 32])
    ensures
        r == crate::notes::tree::zero32(),
        is_point_spec(r),
{
    RistrettoPoint::identity().compress().to_bytes()
}

/// `CompressedRistretto::decompress`: whether the bytes encode a point.
#[verifier::external_body]
pub(crate) fn point_valid(b: &[u8; 32]) -> (r: bool)
    ensures
        r == is_point_spec(*b),
{
    CompressedRistretto(*b).decompress().is_some()
}

/// `Scalar::from_bytes_mod_order_wide`: the 64 bytes as a little-endian
/// integer reduced modulo the group order, encoded.
#[verifier::external_body]
pub(crate) fn scalar_wide(wide: &[u8; 64]) -> (r: [u8; 32])
    ensures
        r == scalar_wide_spec(wide@),
{
    Scalar::from_bytes_mod_order_wide(wide).to_bytes()
}

/// `Scalar::from_bytes_mod_order`: the 32 bytes reduced modulo the group order, encoded.
#[verifier::external_body]
pub(crate) fn scalar_reduce(b: &[u8; 32]) -> (r: [u8; 32])
    ensures
        r == scalar_reduce_spec(*b),
{
    Scalar::from_bytes_mod_order(*b).to_bytes()
}

/// `Scalar + Scalar`, on encodings.
#[verifier::external_body]
pub(crate) fn scalar_add(a: &[u8; 32], b: &[u8; 32]) -> (r: [u8; 32])
    ensures
        r == scalar_add_spec(*a, *b),
{
    (Scalar::from_bytes_mod_order(*a) + Scalar::from_bytes_mod_order(*b)).to_bytes()
}

/// `Scalar - Scalar`, on encodings.
#[verifier::external_body]
pub(crate) fn scalar_sub(a: &[u8; 32], b: &[u8; 32]) -> (r: [u8; 32])
    ensures
        r == scalar_sub_spec(*a, *b),
{
    (Scalar::from_bytes_mod_order(*a) - Scalar::from_bytes_mod_order(*b)).to_bytes()
}

/// `Scalar * Scalar`, on encodings.
#[verifier::external_body]
pub(crate) fn scalar_mul(a: &[u8; 32], b: &[u8; 32]) -> (r: [u8; 32])
    ensures
        r == scalar_mul_spec(*a, *b),
{
    (Scalar::from_bytes_mod_order(*a) * Scalar::from_bytes_mod_order(*b)).to_bytes()
}

/// `RistrettoPoint + RistrettoPoint` on valid encodings; the compressed
/// result is valid.
#[verifier::external_body]
pub(crate) fn point_add(a: &[u8; 32], b: &[u8; 32]) -> (r: [u8; 32])
    requires
        is_point_spec(*a),
        is_point_spec(*b),
    ensures
        r == point_add_spec(*a, *b),
        is_point_spec(r),
{
    let pa = CompressedRistretto(*a).decompress().unwrap();
    let pb = CompressedRistretto(*b).decompress().unwrap();
    (pa + pb).compress().to_bytes()
}

/// `RistrettoPoint - RistrettoPoint` on valid encodings; the compressed
/// result is valid.
#[verifier::external_body]
pub(crate) fn point_sub(a: &[u8; 32], b: &[u8; 32]) -> (r: [u8; 32])
    requires
        is_point_spec(*a),
        is_point_spec(*b),
    ensures
        r == point_sub_spec(*a, *b),
        is_point_spec(r),
{
    let pa = CompressedRistretto(*a).decompress().unwrap();
    let pb = CompressedRistretto(*b).decompress().unwrap();
    (pa - pb).compress().to_bytes()
}

/// `Scalar * RistrettoPoint` on a valid encoding; the compressed result is valid.
#[verifier::external_body]
pub(crate) fn point_mul(s: &[u8; 32], p: &[u8; 32]) -> (r: [u8; 32])
    requires
        is_point_spec(*p),
    ensures
        r == point_mul_spec(*s, *p),
        is_point_spec(r),
{
    let pp = CompressedRistretto(*p).decompress().unwrap();
    (Scalar::from_bytes_mod_order(*s) * pp).compress().to_bytes()
}

/// `Scalar * RISTRETTO_BASEPOINT_POINT`; the compressed result is valid.
#[verifier::external_body]
pub(crate) fn basepoint_mul(s: &[u8; 32]) -> (r: [u8; 32])
    ensures
        r == basepoint_mul_spec(*s),
        is_point_spec(r),
{
    (Scalar::from_bytes_mod_order(*s) * RISTRETTO_BASEPOINT_POINT).compress().to_bytes()
}

} // verus!
