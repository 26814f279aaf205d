//! Difficulty retargeting.

use vstd::prelude::*;
use crate::params::{DIFFICULTY_ADJUSTMENT_WINDOW, POW_TARGET_BLOCK_TIME};

verus! {

/// Highest difficulty, in leading zero bits, that retargeting moves up to.
pub const MAX_RETARGET_DIFFICULTY: u32 = 240;
/// Lowest difficulty that retargeting moves down to: half the initial difficulty.
pub const MIN_RETARGET_DIFFICULTY: u32 = 10;

/// The window timespan clamped to a factor of four of the target in either direction.
pub open spec fn clamped_timespan(actual_timespan: u64, target_timespan: u64) -> int {
    let lo = if actual_timespan >= target_timespan / 4 { actual_timespan as int } else { (target_timespan / 4) as int };
    if lo <= target_timespan * 4 { lo } else { target_timespan * 4 }
}

/// Clamped timespan over target timespan, in thousandths.
pub open spec fn timespan_ratio(actual_timespan: u64, target_timespan: u64) -> int {
    clamped_timespan(actual_timespan, target_timespan) * 1000 / (target_timespan as int)
}

/// What `retarget` returns.
pub open spec fn retarget_spec(current_difficulty: u32, actual_timespan: u64, target_timespan: u64) -> int {
    let ratio = timespan_ratio(actual_timespan, target_timespan);
    if ratio < 1000 {
        if current_difficulty + 1 <= MAX_RETARGET_DIFFICULTY { current_difficulty + 1 } else { MAX_RETARGET_DIFFICULTY as int }
    } else if ratio > 1000 {
        let lowered = if current_difficulty >= 1 { current_difficulty - 1 } else { 0 };
        if lowered >= MIN_RETARGET_DIFFICULTY { lowered } else { MIN_RETARGET_DIFFICULTY as int }
    } else {
        current_difficulty as int
    }
}

/// The inputs on which `retarget` computes without overflow or division by zero.
pub open spec fn retarget_inputs_ok(current_difficulty: u32, actual_timespan: u64, target_timespan: u64) -> bool {
    &&& target_timespan > 0
    &&& target_timespan * 4 <= u64::MAX
    &&& clamped_timespan(actual_timespan, target_timespan) * 1000 <= u64::MAX
    &&& current_difficulty < u32::MAX
}

/// Retarget difficulty every window of blocks.
/// Returns the new difficulty in leading zero bits: one bit up when the window
/// came in faster than the target (not above 240), one bit down (not below
/// half the initial difficulty) when it came in slower.
pub fn retarget(current_difficulty: u32, actual_timespan: u64, target_timespan: u64) -> (r: u32)
    requires
        retarget_inputs_ok(current_difficulty, actual_timespan, target_timespan),
    ensures
        r == retarget_spec(current_difficulty, actual_timespan, target_timespan),
{
    let quarter = target_timespan / 4;
    let lo = if actual_timespan >= quarter { actual_timespan } else { quarter };
    let four = target_timespan * 4;
    let clamped_actual = if lo <= four { lo } else { four };
    let ratio = (clamped_actual * 1000) / target_timespan;
    if ratio < 1000 {
        let up = current_difficulty + 1;
        if up <= MAX_RETARGET_DIFFICULTY { up } else { MAX_RETARGET_DIFFICULTY }
    } else if ratio > 1000 {
        let lowered = current_difficulty.saturating_sub(1);
        if lowered >= MIN_RETARGET_DIFFICULTY { lowered } else { MIN_RETARGET_DIFFICULTY }
    } else {
        current_difficulty
    }
}

/// Law: a difficulty inside `[MIN_RETARGET_DIFFICULTY, 240]` stays inside it after retargeting.
pub proof fn lemma_retarget_stays_in_range(current_difficulty: u32, actual_timespan: u64, target_timespan: u64)
    requires
        retarget_inputs_ok(current_difficulty, actual_timespan, target_timespan),
        MIN_RETARGET_DIFFICULTY <= current_difficulty <= MAX_RETARGET_DIFFICULTY,
    ensures
        MIN_RETARGET_DIFFICULTY <= retarget_spec(current_difficulty, actual_timespan, target_timespan) <= MAX_RETARGET_DIFFICULTY,
{
}

/// Law: a window that came in faster than the target never lowers a difficulty
/// below 240, and one that came in slower never raises it.
pub proof fn lemma_retarget_direction(current_difficulty: u32, actual_timespan: u64, target_timespan: u64)
    requires
        retarget_inputs_ok(current_difficulty, actual_timespan, target_timespan),
        MIN_RETARGET_DIFFICULTY <= current_difficulty <= MAX_RETARGET_DIFFICULTY,
    ensures
        actual_timespan < target_timespan ==> retarget_spec(current_difficulty, actual_timespan, target_timespan) >= current_difficulty,
        actual_timespan > target_timespan ==> retarget_spec(current_difficulty, actual_timespan, target_timespan) <= current_difficulty,
        actual_timespan == target_timespan ==> retarget_spec(current_difficulty, actual_timespan, target_timespan) == current_difficulty,
{
    let c = clamped_timespan(actual_timespan, target_timespan);
    let t = target_timespan as int;
    if actual_timespan < target_timespan {
        assert(c < t);
        assert(c * 1000 < t * 1000) by (nonlinear_arith) requires c < t, t > 0;
        assert(c * 1000 / t < 1000) by (nonlinear_arith) requires c * 1000 < t * 1000, t > 0, c >= 0;
    } else if actual_timespan > target_timespan {
        assert(c >= t);
        assert(c * 1000 >= t * 1000) by (nonlinear_arith) requires c >= t, t > 0;
        assert(c * 1000 / t >= 1000) by (nonlinear_arith) requires c * 1000 >= t * 1000, t > 0;
    } else {
        assert(c == t);
        assert(t * 1000 / t == 1000) by (nonlinear_arith) requires t > 0;
    }
}

/// Law: retargeting moves a difficulty between the floor and 240 by at most
/// one bit; outside that range it moves by at most one bit or lands on the
/// floor (rising) or on 240 (falling). A window faster than the target raises a difficulty below
/// 240 by exactly one bit; a window on target keeps it; a window at least a
/// thousandth slower than the target lowers a difficulty above the floor by
/// exactly one bit.
pub proof fn lemma_retarget_one_bit(current_difficulty: u32, actual_timespan: u64, target_timespan: u64)
    requires
        retarget_inputs_ok(current_difficulty, actual_timespan, target_timespan),
    ensures
        MIN_RETARGET_DIFFICULTY <= current_difficulty <= MAX_RETARGET_DIFFICULTY ==> {
            &&& retarget_spec(current_difficulty, actual_timespan, target_timespan) <= current_difficulty + 1
            &&& retarget_spec(current_difficulty, actual_timespan, target_timespan) >= current_difficulty - 1
        },
        retarget_spec(current_difficulty, actual_timespan, target_timespan) <= current_difficulty + 1
            || retarget_spec(current_difficulty, actual_timespan, target_timespan) == MIN_RETARGET_DIFFICULTY,
        retarget_spec(current_difficulty, actual_timespan, target_timespan) >= current_difficulty - 1
            || retarget_spec(current_difficulty, actual_timespan, target_timespan) == MAX_RETARGET_DIFFICULTY,
        actual_timespan < target_timespan && current_difficulty < MAX_RETARGET_DIFFICULTY
            ==> retarget_spec(current_difficulty, actual_timespan, target_timespan) == current_difficulty + 1,
        actual_timespan == target_timespan
            ==> retarget_spec(current_difficulty, actual_timespan, target_timespan) == current_difficulty,
        1000 * (actual_timespan as int) >= 1001 * (target_timespan as int) && current_difficulty > MIN_RETARGET_DIFFICULTY
            ==> retarget_spec(current_difficulty, actual_timespan, target_timespan) == current_difficulty - 1,
{
    let c = clamped_timespan(actual_timespan, target_timespan);
    let t = target_timespan as int;
    let a = actual_timespan as int;
    if actual_timespan < target_timespan {
        assert(c < t);
        assert(c * 1000 < t * 1000) by (nonlinear_arith) requires c < t, t > 0;
        assert(c * 1000 / t < 1000) by (nonlinear_arith) requires c * 1000 < t * 1000, t > 0, c >= 0;
    } else if actual_timespan == target_timespan {
        assert(c == t);
        assert(t * 1000 / t == 1000) by (nonlinear_arith) requires t > 0;
    }
    if 1000 * a >= 1001 * t {
        assert(c >= a || c == t * 4);
        assert(1000 * c >= 1001 * t) by (nonlinear_arith)
            requires 1000 * a >= 1001 * t, c >= a || c == t * 4, t > 0;
        assert(c * 1000 / t > 1000) by (nonlinear_arith) requires 1000 * c >= 1001 * t, t > 0;
    }
}

/// The target timespan of one adjustment window.
pub open spec fn pow_target_timespan_spec() -> int {
    DIFFICULTY_ADJUSTMENT_WINDOW * POW_TARGET_BLOCK_TIME
}

/// Calculate the target timespan for the adjustment window.
pub fn pow_target_timespan() -> (r: u64)
    ensures
        r == pow_target_timespan_spec(),
        r == 241920,
{
    DIFFICULTY_ADJUSTMENT_WINDOW * POW_TARGET_BLOCK_TIME
}

} // verus!
