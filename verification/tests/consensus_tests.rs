use hybrid_chain::consensus::difficulty::{pow_target_timespan, retarget};
use hybrid_chain::consensus::pos::{calculate_coin_age, stake_weight, validate_stake};
use hybrid_chain::consensus::pow::{meets_difficulty, mine, sha256d};
use hybrid_chain::params::{INITIAL_DIFFICULTY, MIN_STAKE, POS_COIN_AGE_MAX, POS_COIN_AGE_MIN};

#[test]
fn test_difficulty_increases_when_fast() {
    let target = pow_target_timespan();
    let result = retarget(20, target / 2, target);
    assert!(result > 20);
}

#[test]
fn test_difficulty_decreases_when_slow() {
    let target = pow_target_timespan();
    let result = retarget(20, target * 2, target);
    assert!(result < 20);
}

#[test]
fn retarget_exact_values() {
    let target = pow_target_timespan();
    assert_eq!(target, 241920);
    assert_eq!(retarget(30, target / 2, target), 31);
    assert_eq!(retarget(30, target * 2, target), 29);
    assert_eq!(retarget(30, target, target), 30);
    assert_eq!(retarget(240, 1, target), 240);
    assert_eq!(retarget(INITIAL_DIFFICULTY, target * 100, target), INITIAL_DIFFICULTY - 1);
    assert_eq!(retarget(10, target * 100, target), 10);
    assert_eq!(retarget(0, target * 100, target), 10);
}

#[test]
fn test_coin_age_capped() {
    let max_age = POS_COIN_AGE_MAX;
    let age = calculate_coin_age(1000, max_age + 1000);
    let expected = calculate_coin_age(1000, max_age);
    assert_eq!(age, expected);
}

#[test]
fn coin_age_exact_and_saturating() {
    assert_eq!(calculate_coin_age(3, 10), 30);
    assert_eq!(calculate_coin_age(u64::MAX, 10), u64::MAX);
}

#[test]
fn test_stake_weight_immature() {
    let weight = stake_weight(10_000_0000_0000, 3600);
    assert_eq!(weight, 0);
}

#[test]
fn stake_weight_mature_and_small() {
    assert_eq!(stake_weight(MIN_STAKE, POS_COIN_AGE_MIN), MIN_STAKE * POS_COIN_AGE_MIN);
    assert_eq!(stake_weight(MIN_STAKE - 1, POS_COIN_AGE_MIN), 0);
}

#[test]
fn validate_stake_errors() {
    assert_eq!(validate_stake(MIN_STAKE - 1, POS_COIN_AGE_MIN), Err("Insufficient stake: below minimum"));
    assert_eq!(
        validate_stake(MIN_STAKE, POS_COIN_AGE_MIN - 1),
        Err("Coin age too low: coins must be held at least 1 day")
    );
    assert_eq!(validate_stake(MIN_STAKE, POS_COIN_AGE_MIN), Ok(()));
}

#[test]
fn test_sha256d_known_vector() {
    let result = sha256d(b"");
    assert_eq!(result.len(), 32);
    assert_eq!(
        hex::encode(result),
        "5df6e0e2761359d30a8275058e299fcc0381534545f55cf43e41983f5d4c9456"
    );
}

#[test]
fn test_meets_difficulty_zero() {
    let hash = [0u8; 32];
    assert!(meets_difficulty(&hash, 32));
}

#[test]
fn test_not_meets_difficulty() {
    let mut hash = [0u8; 32];
    hash[0] = 0xFF;
    assert!(!meets_difficulty(&hash, 8));
}

#[test]
fn meets_difficulty_partial_byte() {
    let mut hash = [0u8; 32];
    hash[1] = 0x0F;
    assert!(meets_difficulty(&hash, 12));
    assert!(!meets_difficulty(&hash, 13));
    assert!(meets_difficulty(&[0u8; 32], 256));
}

#[test]
fn mine_finds_smallest_nonce() {
    let header = b"header";
    let (nonce, hash) = mine(header, 4).expect("a nonce");
    let mut data = header.to_vec();
    data.extend_from_slice(&nonce.to_le_bytes());
    assert_eq!(hash, sha256d(&data));
    assert!(meets_difficulty(&hash, 4));
    for m in 0..nonce {
        let mut d = header.to_vec();
        d.extend_from_slice(&m.to_le_bytes());
        assert!(!meets_difficulty(&sha256d(&d), 4));
    }
}

#[test]
fn meets_difficulty_beyond_the_hash() {
    let zero = [0u8; 32];
    assert!(meets_difficulty(&zero, 256));
    assert!(meets_difficulty(&zero, 263));
    let mut last = [0u8; 32];
    last[31] = 1;
    assert!(!meets_difficulty(&last, 256));
    assert!(!meets_difficulty(&last, 300));
    assert!(meets_difficulty(&last, 255));
}

#[test]
fn difficulty_counts_leading_zero_bits() {
    let mut hash = [0u8; 32];
    hash[0] = 0x10;
    assert!(meets_difficulty(&hash, 3));
    assert!(!meets_difficulty(&hash, 4));
    hash[0] = 0;
    hash[1] = 0x01;
    assert!(meets_difficulty(&hash, 15));
    assert!(!meets_difficulty(&hash, 16));
    assert!(meets_difficulty(&[0u8; 32], 256));
}
