use vstd::prelude::*;

verus! {

/// Compares two 32-byte strings.
pub fn bytes32_eq(a: &[u8; 32], b: &[u8; 32]) -> (r: bool)
    ensures
        r == (a@ == b@),
        r == (*a == *b),
{
    let mut i: usize = 0;
    while i < 32
        invariant
            0 <= i <= 32,
            a@.len() == 32,
            b@.len() == 32,
            forall|j: int| 0 <= j < i ==> a@[j] == b@[j],
        decreases 32 - i,
    {
        if a[i] != b[i] {
            assert(a@[i as int] != b@[i as int]);
            return false;
        }
        i = i + 1;
    }
    assert(a@ =~= b@);
    proof {
        vstd::array::axiom_array_ext_equal(*a, *b);
    }
    true
}

/// Appends every byte of `src` to `dst`.
pub fn push_bytes(dst: &mut Vec<u8>, src: &[u8])
    ensures
        final(dst)@ == old(dst)@ + src@,
{
    let ghost start = dst@;
    let mut i: usize = 0;
    while i < src.len()
        invariant
            0 <= i <= src@.len(),
            dst@ == start + src@.subrange(0, i as int),
        decreases src@.len() - i,
    {
        dst.push(src[i]);
        i = i + 1;
        assert(dst@ =~= start + src@.subrange(0, i as int));
    }
    assert(src@.subrange(0, src@.len() as int) =~= src@);
}

/// A fresh vector holding the same bytes.
pub fn copy_bytes(src: &[u8]) -> (r: Vec<u8>)
    ensures
        r@ == src@,
{
    let mut r: Vec<u8> = Vec::new();
    push_bytes(&mut r, src);
    assert(r@ =~= src@);
    r
}

/// Concatenates two 32-byte strings.
pub fn concat32(a: &[u8; 32], b: &[u8; 32]) -> (r: Vec<u8>)
    ensures
        r@ == a@ + b@,
{
    let mut v: Vec<u8> = Vec::new();
    push_bytes(&mut v, a);
    push_bytes(&mut v, b);
    assert(v@ =~= a@ + b@);
    v
}

/// The first 32 bytes of a 64-byte string.
pub open spec fn first32_spec(h: [u8; 64]) -> [u8; 32] {
    choose|r: [u8; 32]| r@ == h@.subrange(0, 32)
}

/// The first 32 bytes of a 64-byte string.
pub fn first32(h: &[u8; 64]) -> (r: [u8; 32])
    ensures
        r@ == h@.subrange(0, 32),
        r == first32_spec(*h),
{
    let mut r = [0u8; 32];
    let mut i: usize = 0;
    while i < 32
        invariant
            0 <= i <= 32,
            forall|j: int| 0 <= j < i ==> r@[j] == h@[j],
        decreases 32 - i,
    {
        r.set(i, h[i]);
        i = i + 1;
    }
    assert(r@ =~= h@.subrange(0, 32));
    proof {
        let c = first32_spec(*h);
        assert(exists|x: [u8; 32]| x@ == h@.subrange(0, 32)) by {
            assert(r@ == h@.subrange(0, 32));
        }
        assert forall|i: int| 0 <= i < 32 implies c[i] == r[i] by {
            assert(c@[i] == r@[i]);
        }
        vstd::array::axiom_array_ext_equal(c, r);
        assert(c =~= r);
    }
    r
}

/// The first 16 bytes of a 32-byte string.
pub open spec fn first16_spec(h: [u8; 32]) -> [u8; 16] {
    choose|r: [u8; 16]| r@ == h@.subrange(0, 16)
}

/// The first 16 bytes of a 32-byte string.
pub fn first16(h: &[u8; 32]) -> (r: [u8; 16])
    ensures
        r@ == h@.subrange(0, 16),
        r == first16_spec(*h),
{
    let mut r = [0u8; 16];
    let mut i: usize = 0;
    while i < 16
        invariant
            0 <= i <= 16,
            forall|j: int| 0 <= j < i ==> r@[j] == h@[j],
        decreases 16 - i,
    {
        r.set(i, h[i]);
        i = i + 1;
    }
    assert(r@ =~= h@.subrange(0, 16));
    proof {
        let c = first16_spec(*h);
        assert(exists|x: [u8; 16]| x@ == h@.subrange(0, 16)) by {
            assert(r@ == h@.subrange(0, 16));
        }
        assert forall|i: int| 0 <= i < 16 implies c[i] == r[i] by {
            assert(c@[i] == r@[i]);
        }
        vstd::array::axiom_array_ext_equal(c, r);
        assert(c =~= r);
    }
    r
}

} // verus!
