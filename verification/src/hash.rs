//! SHA-256 and SHA-512 digests. The digests themselves come from the `sha2`
//! crate; everything built on them (double hashing, pair hashing) is here.

use vstd::prelude::*;
use sha2::Digest;
use crate::bytes::concat32;

verus! {

/// The SHA-256 digest of a byte string, as `sha2::Sha256` computes it.
pub uninterp spec fn sha256_spec(data: Seq<u8>) -> [u8; 32];

/// The SHA-512 digest of a byte string, as `sha2::Sha512` computes it.
pub uninterp spec fn sha512_spec(data: Seq<u8>) -> [u8; 64];

/// `sha2::Sha256::digest`: the result is the SHA-256 digest of `data`.
#[verifier::external_body]
pub(crate) fn sha256_digest(data: &[u8]) -> (out: [u8; 32])
    ensures
        out == sha256_spec(data@),
{
    sha2::Sha256::digest(data).into()
}

/// `sha2::Sha512::digest`: the result is the SHA-512 digest of `data`.
#[verifier::external_body]
pub(crate) fn sha512_digest(data: &[u8]) -> (out: [u8; 64])
    ensures
        out == sha512_spec(data@),
{
    sha2::Sha512::digest(data).into()
}

/// Double SHA-256 of a byte string.
pub open spec fn sha256d_spec(data: Seq<u8>) -> [u8; 32] {
    sha256_spec(sha256_spec(data)@)
}

/// Double SHA-256 of the concatenation of two 32-byte strings.
pub open spec fn hash_pair(a: [u8; 32], b: [u8; 32]) -> [u8; 32] {
    sha256d_spec(a@ + b@)
}

/// Double SHA256 (SHA256d), as Bitcoin uses it.
pub fn sha256d(data: &[u8]) -> (out: [u8; 32])
    ensures
        out == sha256d_spec(data@),
{
    let first = sha256_digest(data);
    sha256_digest(&first)
}

/// SHA256d of `a || b`.
pub fn sha256d_pair(a: &[u8; 32], b: &[u8; 32]) -> (out: [u8; 32])
    ensures
        out == hash_pair(*a, *b),
{
    let c = concat32(a, b);
    sha256d(c.as_slice())
}

} // verus!
