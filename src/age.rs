//! The age bias: how many whole (Julian) years old a file is, and whether a
//! random draw lets a file of that age through.
//!
//! A draw is an integer `k` in `0..DRAW_RANGE`, read as the fraction
//! `k / 2^53` of the unit interval. The acceptance probability of a file of
//! age `d` years is `max(0.01, 0.5^d)`, and the file is kept when the draw
//! does not exceed it: `k / 2^53 <= max(0.01, 0.5^d)`.

use vstd::arithmetic::div_mod::lemma_fundamental_div_mod;
use vstd::arithmetic::power2::*;
use vstd::prelude::*;
use vstd::set_lib::*;

verus! {

/// Seconds in a Julian year (365.25 days).
pub const SECONDS_PER_YEAR: u64 = 31_557_600;

/// Number of distinct draws: a draw `k` stands for the fraction `k / 2^53`.
pub const DRAW_RANGE: u64 = 0x20_0000_0000_0000;

/// Whole Julian years between the Unix epoch and `secs`.
pub open spec fn epoch_year(secs: int) -> int {
    secs / (SECONDS_PER_YEAR as int)
}

/// Age in whole years of something modified at `modified` seen at `now`
/// (both in seconds since the Unix epoch); negative for a future date.
pub open spec fn age_years(now: int, modified: int) -> int {
    epoch_year(now) - epoch_year(modified)
}

/// The draw `k` is at most the acceptance probability `max(0.01, 0.5^age)`,
/// all scaled by `2^53`. A non-positive age gives a probability of at least
/// one, which every draw meets.
pub open spec fn age_accepts(age: int, draw: int) -> bool {
    ||| age <= 0
    ||| draw * pow2(age as nat) <= DRAW_RANGE
    ||| draw * 100 <= DRAW_RANGE
}

/// The draws, out of `0..DRAW_RANGE`, that keep a file of age `age`.
pub open spec fn accepted_draws(age: int) -> Set<int> {
    Set::new(|k: int| 0 <= k < DRAW_RANGE && age_accepts(age, k))
}

/// How many draws keep a file of age `age`: all of them for a non-positive
/// age, else one more than the larger of `2^53 / 2^age` and `2^53 / 100`
/// (rounded down), since a draw equal to the bound is kept.
pub open spec fn accepted_draw_count(age: int) -> int {
    if age <= 0 {
        DRAW_RANGE as int
    } else {
        let by_halving = DRAW_RANGE as int / pow2(age as nat) as int;
        let floor = DRAW_RANGE as int / 100;
        (if by_halving >= floor { by_halving } else { floor }) + 1
    }
}

/// `k * d <= n` exactly when `k <= n / d`.
proof fn lemma_scaled_at_most(k: int, d: int, n: int)
    requires
        k >= 0,
        d > 0,
        n >= 0,
    ensures
        k * d <= n <==> k <= n / d,
{
    lemma_fundamental_div_mod(n, d);
    let q = n / d;
    let r = n % d;
    assert(k * d <= n <==> k <= q) by (nonlinear_arith)
        requires n == d * q + r, 0 <= r < d, k >= 0, d > 0;
}

/// With the draw uniform over its `2^53` values, a file of age `age` years
/// is kept with probability `accepted_draw_count(age) / 2^53`: exactly one
/// for a non-positive age, else `max(0.5^age, 0.01)` on the grid of draws.
pub proof fn lemma_acceptance_probability(age: int)
    ensures
        accepted_draws(age).finite(),
        accepted_draws(age).len() == accepted_draw_count(age),
        age <= 0 ==> accepted_draws(age) == set_int_range(0, DRAW_RANGE as int),
{
    let n = DRAW_RANGE as int;
    let t = accepted_draw_count(age);
    if age > 0 {
        let p = pow2(age as nat) as int;
        lemma_pow2_pos(age as nat);
        lemma2_to64();
        if age > 1 {
            lemma_pow2_strictly_increases(1, age as nat);
        }
        lemma_scaled_at_most(n / p, p, n);
        lemma_scaled_at_most(n / 100, 100, n);
        assert(n / p < n && n / 100 < n) by (nonlinear_arith)
            requires (n / p) * p <= n, (n / 100) * 100 <= n, p >= 2, n > 0, n / p >= 0, n / 100 >= 0;
        assert forall|k: int| #[trigger] accepted_draws(age).contains(k) <==> set_int_range(0, t).contains(k) by {
            if k >= 0 {
                lemma_scaled_at_most(k, p, n);
                lemma_scaled_at_most(k, 100, n);
            }
        }
    }
    assert(accepted_draws(age) =~= set_int_range(0, t));
    lemma_int_range(0, t);
}

/// The age in whole Julian years of a file last modified at `modified_secs`,
/// seen at `now_secs`.
pub fn age_in_years(now_secs: u64, modified_secs: u64) -> (r: i64)
    ensures
        r == age_years(now_secs as int, modified_secs as int),
{
    let now_year = now_secs / SECONDS_PER_YEAR;
    let modified_year = modified_secs / SECONDS_PER_YEAR;
    assert(now_year <= u64::MAX / SECONDS_PER_YEAR) by (nonlinear_arith)
        requires now_year == now_secs / SECONDS_PER_YEAR;
    assert(modified_year <= u64::MAX / SECONDS_PER_YEAR) by (nonlinear_arith)
        requires modified_year == modified_secs / SECONDS_PER_YEAR;
    now_year as i64 - modified_year as i64
}

/// Whether a file `age_years` old is kept for the draw `draw`.
pub fn accepts_age(age_years: i64, draw: u64) -> (r: bool)
    ensures
        r == age_accepts(age_years as int, draw as int),
{
    if age_years <= 0 {
        return true;
    }
    let floor_met = (draw as u128) * 100 <= DRAW_RANGE as u128;
    if age_years > 6 {
        proof {
            lemma2_to64();
            if age_years > 7 {
                lemma_pow2_strictly_increases(7, age_years as nat);
            }
            let p = pow2(age_years as nat);
            assert(draw * p <= DRAW_RANGE ==> draw * 100 <= DRAW_RANGE) by (nonlinear_arith)
                requires p >= 128, draw >= 0;
        }
        return floor_met;
    }
    let mut scale: u64 = 1;
    let mut i: i64 = 0;
    proof {
        lemma2_to64();
    }
    while i < age_years
        invariant
            0 <= i <= age_years <= 6,
            scale == pow2(i as nat),
            scale <= 64,
        decreases age_years - i,
    {
        proof {
            lemma2_to64();
            lemma_pow2_unfold((i + 1) as nat);
        }
        scale = scale * 2;
        i = i + 1;
    }
    assert((draw as u128) * (scale as u128) <= u64::MAX * 64) by (nonlinear_arith)
        requires scale <= 64;
    (draw as u128) * (scale as u128) <= DRAW_RANGE as u128 || floor_met
}

} // verus!
