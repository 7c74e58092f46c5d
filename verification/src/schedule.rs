//! The reward schedule: a front-loaded table of weekly rates followed by a
//! flat tail rate, all measured from one schedule anchor.

use vstd::prelude::*;

verus! {

/// Flat annualized rate of the tail, in basis points.
pub const AAR: u128 = 800;

/// Seconds in a year of 365 days.
pub const SECONDS_IN_A_YEAR: u128 = 31_536_000;

/// Seconds in one week, the length of every tier window.
pub const WEEK: u64 = 604_800;

/// Base of the annualized rates: a rate of `AAR_BASE` is 100% per year.
pub const AAR_BASE: u128 = 10_000;

/// Annualized rates of the weekly tiers, in basis points, first week first.
pub const AAR_EARLY: [u128; 5] = [50_000, 50_000, 10_000, 5_000, 5_000];

/// Number of weekly tiers.
pub const TIERS: usize = 5;

/// The rate of tier `i`, in basis points.
pub open spec fn tier_rate(i: int) -> int {
    AAR_EARLY@[i] as int
}

/// Start of the window of tier `i`; tier `TIERS` starts the tail.
pub open spec fn tier_start(anchor: int, i: int) -> int {
    anchor + i * WEEK
}

/// Number of seconds that the intervals `[start, end]` and `[lo, hi]` share.
pub open spec fn overlap(start: int, end: int, lo: int, hi: int) -> int {
    let from = if start >= lo { start } else { lo };
    let to = if end <= hi { end } else { hi };
    if to >= from { to - from } else { 0 }
}

/// Rate-weighted seconds that `[start, end]` spends in tier `i`.
pub open spec fn tier_weight(anchor: int, start: int, end: int, i: int) -> int {
    tier_rate(i) * overlap(start, end, tier_start(anchor, i), tier_start(anchor, i + 1))
}

/// Rate-weighted seconds that `[start, end]` spends in the tiers before
/// tier `n`.
pub open spec fn tiers_weight(anchor: int, start: int, end: int, n: int) -> int {
    (if n > 0 { tier_weight(anchor, start, end, 0) } else { 0 })
    + (if n > 1 { tier_weight(anchor, start, end, 1) } else { 0 })
    + (if n > 2 { tier_weight(anchor, start, end, 2) } else { 0 })
    + (if n > 3 { tier_weight(anchor, start, end, 3) } else { 0 })
    + (if n > 4 { tier_weight(anchor, start, end, 4) } else { 0 })
}

/// Rate-weighted seconds that `[start, end]` spends in the flat tail.
pub open spec fn tail_weight(anchor: int, start: int, end: int) -> int {
    let tail = tier_start(anchor, TIERS as int);
    let from = if start >= tail { start } else { tail };
    if end >= from { AAR * (end - from) } else { 0 }
}

/// Rate-weighted seconds of the whole interval `[start, end]`.
pub open spec fn weighted_seconds(anchor: int, start: int, end: int) -> int {
    tiers_weight(anchor, start, end, TIERS as int) + tail_weight(anchor, start, end)
}

/// What the numerator is divided by: a full year at a rate of 100%.
pub open spec fn reward_divisor() -> int {
    SECONDS_IN_A_YEAR * AAR_BASE
}

/// The undivided reward: principal times rate times duration, summed over
/// the schedule.
pub open spec fn reward_numerator(anchor: int, amount: int, start: int, end: int) -> int {
    amount * weighted_seconds(anchor, start, end)
}

/// Reward accrued by `amount` over `[start, end]`, truncated toward zero.
pub open spec fn reward(anchor: int, amount: int, start: int, end: int) -> int {
    reward_numerator(anchor, amount, start, end) / reward_divisor()
}

/// The interval over which a record accrues at time `now`.
///
/// The end is `now`, pulled back to `cutoff` where a cut-off is configured
/// (non-zero) and lies before `now`. The start is the record's window
/// cursor, pulled down to the end where the cursor lies beyond it, so that
/// the interval is never inverted.
pub open spec fn accrual_window_spec(now: u64, cutoff: u64, cursor: u64) -> (u64, u64) {
    let end = if cutoff != 0 && cutoff < now { cutoff } else { now };
    let start = if cursor <= end { cursor } else { end };
    (start, end)
}

/// Computes the interval over which a record accrues at time `now`, as
/// `(start, end)`.
pub fn accrual_window(now: u64, cutoff: u64, cursor: u64) -> (window: (u64, u64))
    ensures
        window == accrual_window_spec(now, cutoff, cursor),
        window.0 <= window.1 <= now,
        window.0 <= cursor,
{
    let end: u64 = if cutoff != 0 && cutoff < now { cutoff } else { now };
    let start: u64 = if cursor <= end { cursor } else { end };
    (start, end)
}

/// No interval has a negative weight, and an empty or inverted interval
/// has none.
pub proof fn lemma_weight_bounds(anchor: int, start: int, end: int)
    ensures
        weighted_seconds(anchor, start, end) >= 0,
        end <= start ==> weighted_seconds(anchor, start, end) == 0,
{
    lemma_tier_weight_bounds(anchor, start, end, 0);
    lemma_tier_weight_bounds(anchor, start, end, 1);
    lemma_tier_weight_bounds(anchor, start, end, 2);
    lemma_tier_weight_bounds(anchor, start, end, 3);
    lemma_tier_weight_bounds(anchor, start, end, 4);
}

proof fn lemma_tier_weight_bounds(anchor: int, start: int, end: int, i: int)
    requires
        0 <= i < TIERS,
    ensures
        tier_weight(anchor, start, end, i) >= 0,
        end <= start ==> tier_weight(anchor, start, end, i) == 0,
{
    let rate = tier_rate(i);
    let shared = overlap(start, end, tier_start(anchor, i), tier_start(anchor, i + 1));
    assert(rate * shared >= 0) by (nonlinear_arith)
        requires
            rate >= 0,
            shared >= 0,
    ;
    assert(shared == 0 ==> rate * shared == 0) by (nonlinear_arith);
}

/// The weight of an interval is the sum of the weights of its two parts,
/// wherever it is cut.
pub proof fn lemma_weight_splits(anchor: int, start: int, mid: int, end: int)
    requires
        start <= mid <= end,
    ensures
        weighted_seconds(anchor, start, end) == weighted_seconds(anchor, start, mid)
            + weighted_seconds(anchor, mid, end),
{
    lemma_tier_weight_splits(anchor, start, mid, end, 0);
    lemma_tier_weight_splits(anchor, start, mid, end, 1);
    lemma_tier_weight_splits(anchor, start, mid, end, 2);
    lemma_tier_weight_splits(anchor, start, mid, end, 3);
    lemma_tier_weight_splits(anchor, start, mid, end, 4);
}

proof fn lemma_tier_weight_splits(anchor: int, start: int, mid: int, end: int, i: int)
    requires
        start <= mid <= end,
        0 <= i < TIERS,
    ensures
        tier_weight(anchor, start, end, i) == tier_weight(anchor, start, mid, i) + tier_weight(
            anchor,
            mid,
            end,
            i,
        ),
{
    let rate = tier_rate(i);
    let lo = tier_start(anchor, i);
    let hi = tier_start(anchor, i + 1);
    let whole = overlap(start, end, lo, hi);
    let first = overlap(start, mid, lo, hi);
    let second = overlap(mid, end, lo, hi);
    assert(whole == first + second);
    assert(rate * whole == rate * first + rate * second) by (nonlinear_arith)
        requires
            whole == first + second,
    ;
}

/// A longer interval earns no less: the reward does not fall as time goes
/// on.
pub proof fn lemma_reward_grows(anchor: int, amount: int, start: int, mid: int, end: int)
    requires
        amount >= 0,
        start <= mid <= end,
    ensures
        reward(anchor, amount, start, mid) <= reward(anchor, amount, start, end),
{
    lemma_reward_of_parts(anchor, amount, start, mid, end);
    lemma_reward_bounds(anchor, amount, mid, end);
}

/// The reward is never negative, and an empty or inverted interval earns
/// nothing.
pub proof fn lemma_reward_bounds(anchor: int, amount: int, start: int, end: int)
    requires
        amount >= 0,
    ensures
        reward(anchor, amount, start, end) >= 0,
        end <= start ==> reward(anchor, amount, start, end) == 0,
        amount == 0 ==> reward(anchor, amount, start, end) == 0,
{
    lemma_weight_bounds(anchor, start, end);
    let weight = weighted_seconds(anchor, start, end);
    assert(amount * weight >= 0) by (nonlinear_arith)
        requires
            amount >= 0,
            weight >= 0,
    ;
    assert(weight == 0 ==> amount * weight == 0) by (nonlinear_arith);
    assert(amount == 0 ==> amount * weight == 0) by (nonlinear_arith);
    assert(reward_divisor() == 315_360_000_000);
}

/// Truncation never favours the staker: folding the reward at a time in
/// between earns at most what the whole interval earns, and less than one
/// unit is lost by each fold.
pub proof fn lemma_reward_of_parts(anchor: int, amount: int, start: int, mid: int, end: int)
    requires
        amount >= 0,
        start <= mid <= end,
    ensures
        reward(anchor, amount, start, mid) + reward(anchor, amount, mid, end) <= reward(
            anchor,
            amount,
            start,
            end,
        ),
        reward(anchor, amount, start, end) <= reward(anchor, amount, start, mid) + reward(
            anchor,
            amount,
            mid,
            end,
        ) + 1,
{
    lemma_weight_splits(anchor, start, mid, end);
    lemma_weight_bounds(anchor, start, mid);
    lemma_weight_bounds(anchor, mid, end);
    let first = weighted_seconds(anchor, start, mid);
    let second = weighted_seconds(anchor, mid, end);
    assert(amount * (first + second) == amount * first + amount * second) by (nonlinear_arith);
    assert(amount * first >= 0) by (nonlinear_arith)
        requires
            amount >= 0,
            first >= 0,
    ;
    assert(amount * second >= 0) by (nonlinear_arith)
        requires
            amount >= 0,
            second >= 0,
    ;
    assert(reward_divisor() == 315_360_000_000);
}

fn shared_seconds(start: u128, end: u128, lo: u128, hi: u128) -> (shared: u128)
    ensures
        shared == overlap(start as int, end as int, lo as int, hi as int),
{
    let from: u128 = if start >= lo { start } else { lo };
    let to: u128 = if end <= hi { end } else { hi };
    if to >= from { to - from } else { 0 }
}

/// Computes the rate-weighted seconds of `[start, end]`.
pub fn accrual_weight(anchor: u64, start: u64, end: u64) -> (weight: u128)
    ensures
        weight == weighted_seconds(anchor as int, start as int, end as int),
{
    let mut weight: u128 = 0;
    let mut i: usize = 0;
    while i < TIERS
        invariant
            i <= TIERS,
            weight == tiers_weight(anchor as int, start as int, end as int, i as int),
            weight <= i * 50_000 * WEEK,
        decreases TIERS - i,
    {
        let lo: u128 = anchor as u128 + (i as u128) * (WEEK as u128);
        let hi: u128 = lo + WEEK as u128;
        let shared: u128 = shared_seconds(start as u128, end as u128, lo, hi);
        let rate: u128 = AAR_EARLY[i];
        assert(rate * shared <= 50_000 * WEEK) by (nonlinear_arith)
            requires
                rate <= 50_000,
                shared <= WEEK,
        ;
        weight = weight + rate * shared;
        i = i + 1;
    }
    assert(TIERS * WEEK == 3_024_000);
    let tail: u128 = anchor as u128 + (TIERS as u128) * (WEEK as u128);
    let from: u128 = if start as u128 >= tail { start as u128 } else { tail };
    if end as u128 >= from {
        weight = weight + AAR * (end as u128 - from);
    }
    weight
}

/// Computes the reward accrued by `amount` over `[start, end]` under the
/// schedule anchored at `anchor`.
///
/// The product of principal, rate and duration is formed in 128 bits with
/// an explicit overflow check: `None` says that it does not fit. The
/// division by the annualization base truncates, so the result never
/// exceeds the exact reward. An empty or inverted interval earns nothing.
pub fn accrued_reward(anchor: u64, amount: u128, start: u64, end: u64) -> (earned: Option<u128>)
    ensures
        earned is Some <==> reward_numerator(anchor as int, amount as int, start as int, end as int)
            <= u128::MAX,
        earned matches Some(r) ==> {
            &&& r == reward(anchor as int, amount as int, start as int, end as int)
            &&& r * reward_divisor() <= reward_numerator(
                anchor as int,
                amount as int,
                start as int,
                end as int,
            ) < (r + 1) * reward_divisor()
        },
        end <= start || amount == 0 ==> earned == Some(0u128),
{
    let weight: u128 = accrual_weight(anchor, start, end);
    proof {
        lemma_weight_bounds(anchor as int, start as int, end as int);
        assert(weight == 0 || amount == 0 ==> amount * weight == 0) by (nonlinear_arith);
    }
    match amount.checked_mul(weight) {
        Some(numerator) => {
            assert(SECONDS_IN_A_YEAR * AAR_BASE == 315_360_000_000);
            let divisor: u128 = SECONDS_IN_A_YEAR * AAR_BASE;
            Some(numerator / divisor)
        },
        None => None,
    }
}

} // verus!
