//! Coin age and stake eligibility.

use vstd::prelude::*;
use crate::params::{MIN_STAKE, POS_COIN_AGE_MAX, POS_COIN_AGE_MIN};

verus! {

/// `coins * seconds`, saturating at `u64::MAX`.
pub open spec fn saturating_mul_spec(a: u64, b: u64) -> u64 {
    if a * b <= u64::MAX { (a * b) as u64 } else { u64::MAX }
}

/// `a * b`, saturating at `u64::MAX`.
pub fn saturating_mul_u64(a: u64, b: u64) -> (r: u64)
    ensures
        r == saturating_mul_spec(a, b),
{
    match a.checked_mul(b) {
        Some(p) => p,
        None => u64::MAX,
    }
}

/// Seconds held, capped at the maximum coin age.
pub open spec fn capped_age(seconds_held: u64) -> u64 {
    if seconds_held <= POS_COIN_AGE_MAX { seconds_held } else { POS_COIN_AGE_MAX }
}

/// Coin age: coins times capped seconds held, saturating.
pub open spec fn coin_age_spec(coins: u64, seconds_held: u64) -> u64 {
    saturating_mul_spec(coins, capped_age(seconds_held))
}

/// Coin-age = coins * seconds_held (capped at the maximum coin age).
pub fn calculate_coin_age(coins: u64, seconds_held: u64) -> (r: u64)
    ensures
        r == coin_age_spec(coins, seconds_held),
{
    let capped = if seconds_held <= POS_COIN_AGE_MAX { seconds_held } else { POS_COIN_AGE_MAX };
    saturating_mul_u64(coins, capped)
}

/// Stake weight: zero below the minimum age or minimum stake, else the coin age.
pub open spec fn stake_weight_spec(coins: u64, seconds_held: u64) -> u64 {
    if seconds_held < POS_COIN_AGE_MIN || coins < MIN_STAKE { 0 } else { coin_age_spec(coins, seconds_held) }
}

/// Weight of a stake for minting.
pub fn stake_weight(coins: u64, seconds_held: u64) -> (r: u64)
    ensures
        r == stake_weight_spec(coins, seconds_held),
{
    if seconds_held < POS_COIN_AGE_MIN {
        return 0;
    }
    if coins < MIN_STAKE {
        return 0;
    }
    calculate_coin_age(coins, seconds_held)
}

/// Law: holding coins longer never lowers the coin age, and beyond the cap it does not raise it.
pub proof fn lemma_coin_age_capped(coins: u64, s1: u64, s2: u64)
    ensures
        s1 <= s2 ==> coin_age_spec(coins, s1) <= coin_age_spec(coins, s2),
        s1 >= POS_COIN_AGE_MAX && s2 >= POS_COIN_AGE_MAX ==> coin_age_spec(coins, s1) == coin_age_spec(coins, s2),
{
    if s1 <= s2 {
        let a = capped_age(s1) as int;
        let b = capped_age(s2) as int;
        assert(coins * a <= coins * b) by (nonlinear_arith) requires a <= b, coins >= 0;
    }
}

/// Checks that a stake may mint: at least the minimum stake, held at least the minimum age.
pub fn validate_stake(coins: u64, seconds_held: u64) -> (r: Result<(), &'static str>)
    ensures
        coins < MIN_STAKE ==> (r matches Err(e) && e@ == "Insufficient stake: below minimum"@),
        coins >= MIN_STAKE && seconds_held < POS_COIN_AGE_MIN
            ==> (r matches Err(e) && e@ == "Coin age too low: coins must be held at least 1 day"@),
        r is Ok <==> (coins >= MIN_STAKE && seconds_held >= POS_COIN_AGE_MIN),
{
    if coins < MIN_STAKE {
        return Err("Insufficient stake: below minimum");
    }
    if seconds_held < POS_COIN_AGE_MIN {
        return Err("Coin age too low: coins must be held at least 1 day");
    }
    Ok(())
}

} // verus!
