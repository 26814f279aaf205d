//! Miner payout: a spend key derived from a wallet seed and the height, not
//! the ticket string itself.

use vstd::prelude::*;
use vstd::bytes::{spec_u64_to_le_bytes, u64_to_le_bytes};
use vstd::string::StringSliceAdditionalSpecFns;
use crate::notes::keys::{SpendKey, ScanKey, SpendPk, hash_scalar_spec};
use crate::crypto::basepoint_mul_spec;
use crate::bytes::push_bytes;

verus! {

/// The spend and scan keys of one payout.
#[derive(Clone, Copy, Debug)]
pub struct SealedPayout {
    pub dest: SpendPk,
    pub spend: SpendKey,
    pub scan: ScanKey,
}

/// The seed of a payout key: `label || wallet_seed || height` (little endian).
pub open spec fn payout_seed(label: Seq<u8>, wallet_seed: Seq<u8>, height: u64) -> Seq<u8> {
    label + wallet_seed + spec_u64_to_le_bytes(height)
}

/// The spend key of the payout of a wallet seed at a height.
pub open spec fn payout_spend_spec(wallet_seed: Seq<u8>, height: u64) -> SpendKey {
    SpendKey { sk: hash_scalar_spec("spend-sk".spec_bytes() + payout_seed("payout-spend".spec_bytes(), wallet_seed, height)) }
}

fn seed_of(label: &str, wallet_seed: &[u8], height: u64) -> (r: Vec<u8>)
    ensures
        r@ == payout_seed(label.spec_bytes(), wallet_seed@, height),
{
    let mut s: Vec<u8> = Vec::new();
    push_bytes(&mut s, label.as_bytes());
    push_bytes(&mut s, wallet_seed);
    let h = u64_to_le_bytes(height);
    push_bytes(&mut s, h.as_slice());
    assert(s@ =~= payout_seed(label.spec_bytes(), wallet_seed@, height));
    s
}

impl SealedPayout {
    /// The payout of a wallet seed at a height: the spend key of
    /// `"payout-spend" || seed || height`, the scan key of
    /// `"payout-scan" || seed || height`, and the spend key's public key.
    /// `wallet_seed` must be a wallet secret, not a pool ticket.
    pub fn from_wallet_seed(wallet_seed: &[u8], height: u64) -> (p: Self)
        ensures
            p.spend.sk == hash_scalar_spec("spend-sk".spec_bytes() + payout_seed("payout-spend".spec_bytes(), wallet_seed@, height)),
            p.scan.sk == hash_scalar_spec("scan-sk".spec_bytes() + payout_seed("payout-scan".spec_bytes(), wallet_seed@, height)),
            p.dest.bytes == basepoint_mul_spec(p.spend.sk),
    {
        let spend_seed = seed_of("payout-spend", wallet_seed, height);
        let scan_seed = seed_of("payout-scan", wallet_seed, height);
        let spend = SpendKey::from_wallet_seed(spend_seed.as_slice());
        let scan = ScanKey::from_wallet_seed(scan_seed.as_slice());
        SealedPayout { dest: spend.pk(), spend, scan }
    }
}

} // verus!
