//! Pedersen value commitments over Ristretto: `C = v·G + r·H`, with a third
//! generator `A` for assets. Points are compressed encodings; an encoding
//! that names no point counts as the identity.

use vstd::prelude::*;
use vstd::string::StringSliceAdditionalSpecFns;
use crate::crypto::{ristretto_identity, ristretto_from_uniform, ristretto_from_uniform_spec, basepoint, basepoint_spec,
    point_valid, is_point_spec, point_add, point_add_spec, point_sub, point_sub_spec, point_mul, point_mul_spec,
    scalar_from_u64, scalar_from_u64_spec};
use crate::hash::{sha512_digest, sha512_spec};
use crate::notes::keys::{hash_scalar, hash_scalar_spec};
use crate::notes::tree::zero32;
use crate::bytes::{push_bytes, bytes32_eq};

verus! {

/// The generator of a label: SHA-512 of the label mapped to a point.
pub open spec fn point_from_label_spec(label: Seq<u8>) -> [u8; 32] {
    ristretto_from_uniform_spec(sha512_spec(label)@)
}

fn point_from_label(label: &str) -> (r: [u8; 32])
    ensures
        r == point_from_label_spec(label.spec_bytes()),
        is_point_spec(r),
{
    let h = sha512_digest(label.as_bytes());
    ristretto_from_uniform(&h)
}

/// The three generators: `G` for values, `H` for blindings, `A` for assets.
#[derive(Clone, Copy, Debug)]
pub struct PedersenGenerators {
    pub g: [u8; 32],
    pub h: [u8; 32],
    pub a: [u8; 32],
}

impl PedersenGenerators {
    /// All three generators are points.
    pub open spec fn valid(&self) -> bool {
        is_point_spec(self.g) && is_point_spec(self.h) && is_point_spec(self.a)
    }

    /// The asset generator.
    pub fn asset(&self) -> (r: [u8; 32])
        ensures
            r == self.a,
    {
        self.a
    }
}

impl Default for PedersenGenerators {
    /// The basepoint, and the points of `"hybrid-chain-pedersen-H"` and `"hybrid-chain-pedersen-A"`.
    fn default() -> (g: Self)
        ensures
            g.valid(),
            g.g == basepoint_spec(),
            g.h == point_from_label_spec("hybrid-chain-pedersen-H".spec_bytes()),
            g.a == point_from_label_spec("hybrid-chain-pedersen-A".spec_bytes()),
    {
        PedersenGenerators {
            g: basepoint(),
            h: point_from_label("hybrid-chain-pedersen-H"),
            a: point_from_label("hybrid-chain-pedersen-A"),
        }
    }
}

/// A compressed Pedersen commitment.
#[derive(Clone, Copy, Debug, PartialEq, Eq)]
pub struct ValueCommitment {
    pub commitment: [u8; 32],
}

/// The commitment `v·G + r·H` under the given generators.
pub open spec fn commit_spec(value: u64, blinding: [u8; 32], gens: PedersenGenerators) -> [u8; 32] {
    point_add_spec(point_mul_spec(scalar_from_u64_spec(value), gens.g), point_mul_spec(blinding, gens.h))
}

/// The point of a commitment: itself when it names a point, else the identity.
pub open spec fn point_of(c: [u8; 32]) -> [u8; 32] {
    if is_point_spec(c) { c } else { zero32() }
}

/// The sum of the points of a list of commitments, from the identity.
pub open spec fn sum_points(cs: Seq<ValueCommitment>) -> [u8; 32]
    decreases cs.len(),
{
    if cs.len() == 0 {
        zero32()
    } else {
        point_add_spec(sum_points(cs.drop_last()), point_of(cs.last().commitment))
    }
}

/// What `verify_balance` decides: the inputs sum to the outputs plus the fee.
pub open spec fn balance_spec(inputs: Seq<ValueCommitment>, outputs: Seq<ValueCommitment>, fee: ValueCommitment) -> bool {
    sum_points(inputs) == sum_points(outputs.insert(0, fee))
}

impl ValueCommitment {
    /// Commits to `value` with `blinding`.
    pub fn commit(value: u64, blinding: &[u8; 32], gens: &PedersenGenerators) -> (c: Self)
        requires
            gens.valid(),
        ensures
            c.commitment == commit_spec(value, *blinding, *gens),
            is_point_spec(c.commitment),
    {
        let v = scalar_from_u64(value);
        let vg = point_mul(&v, &gens.g);
        let rh = point_mul(blinding, &gens.h);
        ValueCommitment { commitment: point_add(&vg, &rh) }
    }

    /// The commitment to nothing: the identity point, all zero when compressed.
    pub fn identity() -> (c: Self)
        ensures
            c.commitment == zero32(),
            is_point_spec(c.commitment),
    {
        ValueCommitment { commitment: ristretto_identity() }
    }

    /// The point of the commitment; the identity when it names no point.
    pub fn point(&self) -> (r: [u8; 32])
        ensures
            r == point_of(self.commitment),
            is_point_spec(r),
    {
        if point_valid(&self.commitment) { self.commitment } else { ristretto_identity() }
    }

    /// The commitment to the sum.
    pub fn add(&self, other: &Self) -> (c: Self)
        ensures
            c.commitment == point_add_spec(point_of(self.commitment), point_of(other.commitment)),
    {
        let a = self.point();
        let b = other.point();
        ValueCommitment { commitment: point_add(&a, &b) }
    }

    /// The commitment to the difference.
    pub fn sub(&self, other: &Self) -> (c: Self)
        ensures
            c.commitment == point_sub_spec(point_of(self.commitment), point_of(other.commitment)),
    {
        let a = self.point();
        let b = other.point();
        ValueCommitment { commitment: point_sub(&a, &b) }
    }
}

fn sum_all(start: [u8; 32], cs: &[ValueCommitment], Ghost(prefix): Ghost<Seq<ValueCommitment>>) -> (r: [u8; 32])
    requires
        is_point_spec(start),
        start == sum_points(prefix),
    ensures
        r == sum_points(prefix + cs@),
        is_point_spec(r),
{
    let mut acc = start;
    let mut k: usize = 0;
    while k < cs.len()
        invariant
            0 <= k <= cs@.len(),
            is_point_spec(acc),
            acc == sum_points(prefix + cs@.subrange(0, k as int)),
        decreases cs@.len() - k,
    {
        let p = cs[k].point();
        proof {
            let s = prefix + cs@.subrange(0, k as int + 1);
            assert(s.drop_last() =~= prefix + cs@.subrange(0, k as int));
            assert(s.last() == cs@[k as int]);
        }
        acc = point_add(&acc, &p);
        k = k + 1;
    }
    assert(cs@.subrange(0, cs@.len() as int) =~= cs@);
    acc
}

/// Whether the inputs balance the outputs plus the fee: the sum of the input
/// points equals the fee point plus the sum of the output points. Compressed
/// encodings are canonical, so points are compared by their encodings.
pub fn verify_balance(inputs: &[ValueCommitment], outputs: &[ValueCommitment], fee: &ValueCommitment) -> (r: bool)
    ensures
        r == balance_spec(inputs@, outputs@, *fee),
{
    let id = ristretto_identity();
    let left = sum_all(id, inputs, Ghost(Seq::empty()));
    assert(Seq::<ValueCommitment>::empty() + inputs@ =~= inputs@);
    let ghost one = seq![*fee];
    proof {
        assert(one.drop_last() =~= Seq::<ValueCommitment>::empty());
        assert(sum_points(Seq::<ValueCommitment>::empty()) == zero32());
        assert(one.last() == *fee);
    }
    let f = fee.point();
    let start = point_add(&id, &f);
    let right = sum_all(start, outputs, Ghost(one));
    assert(one + outputs@ =~= outputs@.insert(0, *fee));
    bytes32_eq(&left, &right)
}

/// A blinding scalar from a seed: the scalar of `"blind" || seed`.
pub fn blinding_from_seed(seed: &[u8]) -> (r: [u8; 32])
    ensures
        r == hash_scalar_spec("blind".spec_bytes() + seed@),
{
    let mut buf: Vec<u8> = Vec::new();
    push_bytes(&mut buf, "blind".as_bytes());
    push_bytes(&mut buf, seed);
    assert(buf@ =~= "blind".spec_bytes() + seed@);
    hash_scalar(buf.as_slice())
}

} // verus!
