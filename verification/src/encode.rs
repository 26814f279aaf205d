//! The canonical byte layout of hashed values: fixed-width little-endian
//! integers, `u32` enum tags, `u64` length prefixes on lists, fixed-size
//! arrays without prefix, and `Option` as a `0`/`1` byte followed by the value.

use vstd::prelude::*;
use vstd::bytes::{spec_u32_to_le_bytes, spec_u64_to_le_bytes, u32_to_le_bytes, u64_to_le_bytes};
use crate::bytes::push_bytes;

verus! {

/// Appends a `u32` in little-endian order.
pub fn put_u32(out: &mut Vec<u8>, x: u32)
    ensures
        final(out)@ == old(out)@ + spec_u32_to_le_bytes(x),
{
    let b = u32_to_le_bytes(x);
    push_bytes(out, b.as_slice());
}

/// Appends a `u64` in little-endian order.
pub fn put_u64(out: &mut Vec<u8>, x: u64)
    ensures
        final(out)@ == old(out)@ + spec_u64_to_le_bytes(x),
{
    let b = u64_to_le_bytes(x);
    push_bytes(out, b.as_slice());
}

/// Appends one byte.
pub fn put_u8(out: &mut Vec<u8>, x: u8)
    ensures
        final(out)@ == old(out)@ + seq![x],
{
    out.push(x);
    assert(out@ =~= old(out)@ + seq![x]);
}

/// A boolean as one byte.
pub open spec fn bool_byte(b: bool) -> Seq<u8> {
    if b { seq![1u8] } else { seq![0u8] }
}

/// Appends a boolean as one byte.
pub fn put_bool(out: &mut Vec<u8>, b: bool)
    ensures
        final(out)@ == old(out)@ + bool_byte(b),
{
    if b { put_u8(out, 1) } else { put_u8(out, 0) }
}

/// Appends a 32-byte string.
pub fn put32(out: &mut Vec<u8>, x: &[u8; 32])
    ensures
        final(out)@ == old(out)@ + x@,
{
    push_bytes(out, x);
}

/// A list of 32-byte strings: `u64` count then the strings.
pub open spec fn list32_bytes(xs: Seq<[u8; 32]>) -> Seq<u8>
    decreases xs.len(),
{
    if xs.len() == 0 { Seq::empty() } else { list32_bytes(xs.drop_last()) + xs.last()@ }
}

/// Appends 32-byte strings one after the other, without a count.
pub fn push_hashes(out: &mut Vec<u8>, xs: &[[u8; 32]])
    ensures
        final(out)@ == old(out)@ + list32_bytes(xs@),
{
    let ghost start = out@;
    let mut k: usize = 0;
    while k < xs.len()
        invariant
            0 <= k <= xs@.len(),
            out@ == start + list32_bytes(xs@.subrange(0, k as int)),
        decreases xs@.len() - k,
    {
        put32(out, &xs[k]);
        proof {
            let s = xs@.subrange(0, k as int + 1);
            assert(s.drop_last() =~= xs@.subrange(0, k as int));
        }
        k = k + 1;
    }
    assert(xs@.subrange(0, xs@.len() as int) =~= xs@);
}

/// Appends a list of 32-byte strings with its count.
pub fn put_list32(out: &mut Vec<u8>, xs: &[[u8; 32]])
    ensures
        final(out)@ == old(out)@ + spec_u64_to_le_bytes(xs@.len() as u64) + list32_bytes(xs@),
{
    put_u64(out, xs.len() as u64);
    let ghost start = out@;
    let mut k: usize = 0;
    while k < xs.len()
        invariant
            0 <= k <= xs@.len(),
            out@ == start + list32_bytes(xs@.subrange(0, k as int)),
        decreases xs@.len() - k,
    {
        put32(out, &xs[k]);
        proof {
            let s = xs@.subrange(0, k as int + 1);
            assert(s.drop_last() =~= xs@.subrange(0, k as int));
        }
        k = k + 1;
    }
    assert(xs@.subrange(0, xs@.len() as int) =~= xs@);
}

/// A byte list: `u64` count then the bytes.
pub fn put_bytes_list(out: &mut Vec<u8>, xs: &[u8])
    ensures
        final(out)@ == old(out)@ + spec_u64_to_le_bytes(xs@.len() as u64) + xs@,
{
    put_u64(out, xs.len() as u64);
    push_bytes(out, xs);
}

} // verus!
