//! Wallet addresses: a public key's SHA-256 digest cut to twenty bytes, shown
//! as lowercase hex behind the ticker prefix.

use vstd::prelude::*;
use crate::hash::{sha256_digest, sha256_spec};

verus! {

/// The lowercase hex digit of a nibble.
pub open spec fn hex_digit(n: int) -> char {
    if n < 10 { (48 + n) as char } else { (87 + n) as char }
}

/// Lowercase hex of a byte string: two digits per byte, high nibble first.
pub open spec fn hex_spec(data: Seq<u8>) -> Seq<char>
    decreases data.len(),
{
    if data.len() == 0 {
        Seq::empty()
    } else {
        seq![hex_digit(data[0] as int / 16), hex_digit(data[0] as int % 16)] + hex_spec(data.drop_first())
    }
}

/// `hex::encode`: the result is the lowercase hex of `data`, two digits
/// per byte (the crate's documentation: "Encodes `data` as hex string using
/// lowercase characters", each byte as two hex digits, in order).
#[verifier::external_body]
fn hex_encode(data: &[u8]) -> (s: String)
    ensures
        s@ == hex_spec(data@),
{
    hex::encode(data)
}

/// The address of a public key: the first twenty bytes of its SHA-256 digest.
pub open spec fn address_spec(pubkey: Seq<u8>) -> Seq<u8> {
    sha256_spec(pubkey)@.subrange(0, 20)
}

/// The address of a public key: the first twenty bytes of its SHA-256 digest.
pub fn address_from_pubkey(pubkey: &[u8]) -> (addr: [u8; 20])
    ensures
        addr@ == address_spec(pubkey@),
{
    let hash = sha256_digest(pubkey);
    let mut addr = [0u8; 20];
    let mut k: usize = 0;
    while k < 20
        invariant
            0 <= k <= 20,
            hash == sha256_spec(pubkey@),
            forall|j: int| 0 <= j < k ==> addr@[j] == hash@[j],
        decreases 20 - k,
    {
        addr[k] = hash[k];
        k = k + 1;
    }
    assert(addr@ =~= address_spec(pubkey@));
    addr
}

/// The text form of an address: `HYB` followed by its lowercase hex.
pub open spec fn encoded_address_spec(addr: Seq<u8>) -> Seq<char> {
    seq!['H', 'Y', 'B'] + hex_spec(addr)
}

/// The text form of an address: `HYB` followed by its lowercase hex.
pub fn encode_address(addr: &[u8; 20]) -> (s: String)
    ensures
        s@ == encoded_address_spec(addr@),
{
    let prefix = String::from_str("HYB");
    let digits = hex_encode(addr.as_slice());
    proof {
        reveal_strlit("HYB");
    }
    let s = prefix.concat(digits.as_str());
    assert(s@ =~= encoded_address_spec(addr@));
    s
}

} // verus!
