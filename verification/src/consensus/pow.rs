//! SHA256d proof of work.

use vstd::prelude::*;
use vstd::bytes::{spec_u64_to_le_bytes, u64_to_le_bytes};
pub use crate::hash::sha256d;
use crate::hash::sha256d_spec;
use crate::bytes::push_bytes;

verus! {

/// A hash meets a difficulty of `d` leading zero bits: its first `d / 8`
/// bytes (at most the whole hash) are zero and, when `d % 8` bits remain
/// inside the hash, the top `d % 8` bits of the next byte are zero. A
/// difficulty that asks for more zero bytes than the hash has is never met.
pub open spec fn meets_difficulty_spec(hash: Seq<u8>, difficulty: u32) -> bool {
    let full = difficulty / 8;
    let rem = difficulty % 8;
    &&& full <= 32
    &&& forall|i: int| 0 <= i < full ==> #[trigger] hash[i] == 0
    &&& (rem > 0 && full < 32) ==> (hash[full as int] >> ((8 - rem) as u8)) == 0
}

/// Whether some byte of a hash is not zero.
pub open spec fn has_nonzero_byte(hash: Seq<u8>) -> bool {
    exists|i: int| 0 <= i < 32 && #[trigger] hash[i] != 0
}

/// Check if a hash meets the difficulty target (leading zero bits). A
/// difficulty of more than 32 zero bytes is checked against the whole hash
/// and the byte past it, so the hash must then have a non-zero byte.
pub fn meets_difficulty(hash: &[u8; 32], difficulty: u32) -> (r: bool)
    requires
        difficulty / 8 <= 32 || has_nonzero_byte(hash@),
    ensures
        r == meets_difficulty_spec(hash@, difficulty),
{
    let full_bytes = (difficulty / 8) as usize;
    let remainder_bits = difficulty % 8;
    let mut i: usize = 0;
    while i < full_bytes
        invariant
            0 <= i <= full_bytes,
            full_bytes == difficulty / 8,
            full_bytes <= 32 || has_nonzero_byte(hash@),
            hash@.len() == 32,
            forall|j: int| 0 <= j < i ==> hash@[j] == 0,
        decreases full_bytes - i,
    {
        if i >= 32 {
            proof {
                let k = choose|k: int| 0 <= k < 32 && #[trigger] hash@[k] != 0;
                assert(hash@[k] == 0);
            }
        }
        if hash[i] != 0 {
            assert(hash@[i as int] != 0);
            return false;
        }
        i = i + 1;
    }
    if remainder_bits > 0 && full_bytes < 32 {
        let sh: u8 = (8 - remainder_bits) as u8;
        let h: u8 = hash[full_bytes];
        let mask: u8 = 0xFF_u8 << sh;
        assert(((h & mask) == 0) == ((h >> sh) == 0)) by (bit_vector)
            requires
                1 <= sh <= 7,
                mask == 0xFF_u8 << sh,
        ;
        if h & mask != 0 {
            return false;
        }
    }
    true
}

/// Law: a hash that meets a difficulty meets every lower difficulty.
pub proof fn lemma_meets_difficulty_monotone(hash: Seq<u8>, d1: u32, d2: u32)
    requires
        hash.len() == 32,
        d2 <= d1,
        d1 / 8 <= 32,
        meets_difficulty_spec(hash, d1),
    ensures
        meets_difficulty_spec(hash, d2),
{
    let f1 = d1 / 8;
    let f2 = d2 / 8;
    let r2 = d2 % 8;
    assert(f2 <= f1);
    if r2 > 0 && f2 < 32 {
        let h = hash[f2 as int];
        let sh2: u8 = (8 - r2) as u8;
        if f2 < f1 {
            assert(hash[f2 as int] == 0);
            assert((h >> sh2) == 0) by (bit_vector) requires h == 0u8;
        } else {
            let r1 = d1 % 8;
            assert(r2 <= r1);
            let sh1: u8 = (8 - r1) as u8;
            assert(h >> sh1 == 0);
            assert((h >> sh2) == 0) by (bit_vector)
                requires
                    h >> sh1 == 0,
                    1 <= sh1 <= sh2 <= 7,
            ;
        }
    }
}

/// Bit `k` of a hash, counted from the most significant bit of its first
/// byte.
pub open spec fn hash_bit(hash: Seq<u8>, k: int) -> u8 {
    (hash[k / 8] >> ((7 - k % 8) as u8)) & 1u8
}

proof fn lemma_byte_high_bits_bv(h: u8, sh: u8)
    by (bit_vector)
    requires
        sh <= 7,
    ensures
        (h >> sh == 0) <==> {
            &&& (h >> 7u8) & 1u8 == 0
            &&& (sh <= 6 ==> (h >> 6u8) & 1u8 == 0)
            &&& (sh <= 5 ==> (h >> 5u8) & 1u8 == 0)
            &&& (sh <= 4 ==> (h >> 4u8) & 1u8 == 0)
            &&& (sh <= 3 ==> (h >> 3u8) & 1u8 == 0)
            &&& (sh <= 2 ==> (h >> 2u8) & 1u8 == 0)
            &&& (sh <= 1 ==> (h >> 1u8) & 1u8 == 0)
            &&& (sh == 0 ==> (h >> 0u8) & 1u8 == 0)
        },
{
}

/// A byte shifted right by `sh` is zero exactly when each of its bits at
/// positions `sh` to 7 is zero.
proof fn lemma_byte_high_bits(h: u8, sh: u8)
    requires
        sh <= 7,
    ensures
        (h >> sh == 0) <==> forall|s: int| sh <= s <= 7 ==> #[trigger] ((h >> (s as u8)) & 1u8) == 0,
{
    lemma_byte_high_bits_bv(h, sh);
    if h >> sh == 0 {
        assert forall|s: int| sh <= s <= 7 implies #[trigger] ((h >> (s as u8)) & 1u8) == 0 by {
            if s == 7 {
            } else if s == 6 {
            } else if s == 5 {
            } else if s == 4 {
            } else if s == 3 {
            } else if s == 2 {
            } else if s == 1 {
            } else {
                assert(s == 0);
            }
        }
    } else {
        if forall|s: int| sh <= s <= 7 ==> #[trigger] ((h >> (s as u8)) & 1u8) == 0 {
            assert(((h >> (7int as u8)) & 1u8) == 0);
            assert(sh <= 6 ==> ((h >> (6int as u8)) & 1u8) == 0);
            assert(sh <= 5 ==> ((h >> (5int as u8)) & 1u8) == 0);
            assert(sh <= 4 ==> ((h >> (4int as u8)) & 1u8) == 0);
            assert(sh <= 3 ==> ((h >> (3int as u8)) & 1u8) == 0);
            assert(sh <= 2 ==> ((h >> (2int as u8)) & 1u8) == 0);
            assert(sh <= 1 ==> ((h >> (1int as u8)) & 1u8) == 0);
            assert(sh == 0 ==> ((h >> (0int as u8)) & 1u8) == 0);
        }
    }
}

/// Law: for a difficulty of at most 256 bits, a hash meets the difficulty
/// exactly when each of its first `d` bits, most significant first, is zero.
pub proof fn lemma_meets_difficulty_bits(hash: Seq<u8>, d: u32)
    requires
        hash.len() == 32,
        d <= 256,
    ensures
        meets_difficulty_spec(hash, d) <==> forall|k: int| 0 <= k < d ==> #[trigger] hash_bit(hash, k) == 0,
{
    let full = d / 8;
    let rem = d % 8;
    if meets_difficulty_spec(hash, d) {
        assert forall|k: int| 0 <= k < d implies #[trigger] hash_bit(hash, k) == 0 by {
            let b = k / 8;
            let s = 7 - k % 8;
            if b < full {
                let h = hash[b];
                assert(h == 0);
                lemma_byte_high_bits(h, 0);
                assert(h >> 0u8 == 0) by (bit_vector) requires h == 0u8;
                assert(((hash[b] >> (s as u8)) & 1u8) == 0);
            } else {
                assert(b == full);
                assert(k % 8 < rem);
                assert(full < 32);
                let sh: u8 = (8 - rem) as u8;
                lemma_byte_high_bits(hash[full as int], sh);
                assert(((hash[b] >> (s as u8)) & 1u8) == 0);
            }
        }
    } else {
        if forall|k: int| 0 <= k < d ==> #[trigger] hash_bit(hash, k) == 0 {
            assert forall|i: int| 0 <= i < full implies #[trigger] hash[i] == 0 by {
                assert forall|s: int| 0 <= s <= 7 implies #[trigger] ((hash[i] >> (s as u8)) & 1u8) == 0 by {
                    let k = 8 * i + 7 - s;
                    assert(k / 8 == i);
                    assert(k % 8 == 7 - s);
                    assert(hash_bit(hash, k) == 0);
                }
                lemma_byte_high_bits(hash[i], 0);
                let h = hash[i];
                assert(h == 0) by (bit_vector) requires h >> 0u8 == 0u8;
            }
            if rem > 0 && full < 32 {
                let sh: u8 = (8 - rem) as u8;
                let h = hash[full as int];
                assert forall|s: int| sh <= s <= 7 implies #[trigger] ((h >> (s as u8)) & 1u8) == 0 by {
                    let k = 8 * full + 7 - s;
                    assert(k / 8 == full);
                    assert(k % 8 == 7 - s);
                    assert(hash_bit(hash, k) == 0);
                }
                lemma_byte_high_bits(h, sh);
            }
            assert(meets_difficulty_spec(hash, d));
        }
    }
}

/// The header bytes followed by the little-endian nonce.
pub open spec fn nonce_preimage(header_bytes: Seq<u8>, nonce: u64) -> Seq<u8> {
    header_bytes + spec_u64_to_le_bytes(nonce)
}

/// Whether `nonce` solves the header at the difficulty.
pub open spec fn nonce_solves(header_bytes: Seq<u8>, difficulty: u32, nonce: u64) -> bool {
    meets_difficulty_spec(sha256d_spec(nonce_preimage(header_bytes, nonce))@, difficulty)
}

/// Mine a nonce that satisfies the difficulty target: the smallest nonce whose
/// SHA256d of `header_bytes || nonce_le` meets the difficulty, with that hash.
/// `None` when no 64-bit nonce does (the search never wraps around).
pub fn mine(header_bytes: &[u8], difficulty: u32) -> (r: Option<(u64, [u8; 32])>)
    requires
        difficulty / 8 <= 32,
    ensures
        r matches Some((nonce, hash)) ==> {
            &&& hash == sha256d_spec(nonce_preimage(header_bytes@, nonce))
            &&& nonce_solves(header_bytes@, difficulty, nonce)
            &&& forall|m: u64| m < nonce ==> !nonce_solves(header_bytes@, difficulty, m)
        },
        r is None ==> forall|m: u64| !nonce_solves(header_bytes@, difficulty, m),
{
    let mut nonce: u64 = 0;
    loop
        invariant
            difficulty / 8 <= 32,
            forall|m: u64| m < nonce ==> !nonce_solves(header_bytes@, difficulty, m),
        decreases u64::MAX - nonce,
    {
        let mut data: Vec<u8> = Vec::new();
        push_bytes(&mut data, header_bytes);
        let le = u64_to_le_bytes(nonce);
        push_bytes(&mut data, le.as_slice());
        let hash = sha256d(data.as_slice());
        if meets_difficulty(&hash, difficulty) {
            return Some((nonce, hash));
        }
        if nonce == u64::MAX {
            assert forall|m: u64| !nonce_solves(header_bytes@, difficulty, m) by {
                if m < nonce {
                } else {
                    assert(m == nonce);
                }
            }
            return None;
        }
        nonce = nonce + 1;
    }
}

} // verus!
