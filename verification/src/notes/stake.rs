//! Stake is a committed note in the living set; the coin amount stays
//! inside the proof object.

use vstd::prelude::*;
use crate::notes::commitment::{ValueCommitment, PedersenGenerators, commit_spec};
use crate::notes::launch::{LaunchSet, live_leaves_spec};
use crate::consensus::pos::validate_stake;
use crate::params::{MIN_STAKE, POS_COIN_AGE_MIN};

verus! {

/// A stake: the commitment to the staked coins, held for `seconds_held`.
#[derive(Clone, Copy, Debug)]
pub struct StakeProof {
    pub stake_commitment: ValueCommitment,
    pub seconds_held: u64,
    coins: u64,
}

impl StakeProof {
    /// The staked amount.
    pub closed spec fn coins_spec(&self) -> u64 {
        self.coins
    }

    /// The stake commitment.
    pub closed spec fn commitment_spec(&self) -> [u8; 32] {
        self.stake_commitment.commitment
    }

    /// The holding time.
    pub closed spec fn seconds_spec(&self) -> u64 {
        self.seconds_held
    }

    /// Stakes `coins` committed with `blinding`: the stake must pass
    /// `validate_stake`, and its commitment must be in the living set.
    pub fn create(launch: &LaunchSet, coins: u64, blinding: &[u8; 32], seconds_held: u64) -> (r: Result<Self, &'static str>)
        ensures
            coins < MIN_STAKE ==> (r matches Err(e) && e@ == "Insufficient stake: below minimum"@),
            coins >= MIN_STAKE && seconds_held < POS_COIN_AGE_MIN
                ==> (r matches Err(e) && e@ == "Coin age too low: coins must be held at least 1 day"@),
            coins >= MIN_STAKE && seconds_held >= POS_COIN_AGE_MIN ==> {
                let gens = PedersenGenerators { g: crate::crypto::basepoint_spec(),
                    h: crate::notes::spend_proof::gen_h(), a: crate::notes::spend_proof::gen_a() };
                let cm = commit_spec(coins, *blinding, gens);
                &&& (r is Ok <==> live_leaves_spec(launch.state()).contains(cm))
                &&& (r matches Err(e) ==> e@ == "stake note not in living set"@)
                &&& (r matches Ok(p) ==> p.commitment_spec() == cm && p.seconds_spec() == seconds_held
                        && p.coins_spec() == coins)
            },
    {
        validate_stake(coins, seconds_held)?;
        let gens = PedersenGenerators::default();
        let stake_commitment = ValueCommitment::commit(coins, blinding, &gens);
        if !launch.contains(stake_commitment.commitment) {
            return Err("stake note not in living set");
        }
        Ok(StakeProof { stake_commitment, seconds_held, coins })
    }

    /// The staked amount, for the reward computation.
    pub fn coins(&self) -> (r: u64)
        ensures
            r == self.coins_spec(),
    {
        self.coins
    }
}

} // verus!
