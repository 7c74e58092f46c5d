//! Arithmetic of the global counters: the reward cap and the treasury.

use vstd::prelude::*;

verus! {

/// What is left of the reward pool: the cap less what was claimed, and
/// nothing once the claims have reached the cap.
pub open spec fn headroom(total_reward: int, total_claimed_reward: int) -> int {
    if total_reward >= total_claimed_reward {
        total_reward - total_claimed_reward
    } else {
        0
    }
}

/// The part of `earned` that may be claimed: all of it, cut to the headroom.
pub open spec fn claimable(earned: int, total_reward: int, total_claimed_reward: int) -> int {
    let left = headroom(total_reward, total_claimed_reward);
    if earned <= left {
        earned
    } else {
        left
    }
}

/// Cuts a freshly earned reward to what the pool still has.
pub fn claimable_reward(earned: u128, total_reward: u128, total_claimed_reward: u128) -> (claim:
    u128)
    ensures
        claim == claimable(earned as int, total_reward as int, total_claimed_reward as int),
        claim <= earned,
        total_claimed_reward >= total_reward ==> claim == 0,
        total_claimed_reward <= total_reward ==> total_claimed_reward + claim <= total_reward,
{
    let left: u128 = if total_reward >= total_claimed_reward {
        total_reward - total_claimed_reward
    } else {
        0
    };
    if earned <= left {
        earned
    } else {
        left
    }
}

/// Funds that are not the owner's: the staked principal and the part of the
/// reward pool that is not claimed yet.
pub open spec fn frozen(total_staked: int, total_reward: int, total_claimed_reward: int) -> int {
    total_staked + headroom(total_reward, total_claimed_reward)
}

/// What the owner may withdraw of `balance`: what exceeds the frozen funds.
pub open spec fn available(
    balance: int,
    total_staked: int,
    total_reward: int,
    total_claimed_reward: int,
) -> int {
    let kept = frozen(total_staked, total_reward, total_claimed_reward);
    if balance > kept {
        balance - kept
    } else {
        0
    }
}

/// Computes what the owner may withdraw of `balance`.
pub fn withdrawable(
    balance: u128,
    total_staked: u128,
    total_reward: u128,
    total_claimed_reward: u128,
) -> (free: u128)
    ensures
        free == available(
            balance as int,
            total_staked as int,
            total_reward as int,
            total_claimed_reward as int,
        ),
        free <= balance,
        free + frozen(total_staked as int, total_reward as int, total_claimed_reward as int)
            <= balance || free == 0,
{
    let left: u128 = if total_reward >= total_claimed_reward {
        total_reward - total_claimed_reward
    } else {
        0
    };
    match total_staked.checked_add(left) {
        Some(kept) => if balance > kept {
            balance - kept
        } else {
            0
        },
        None => 0,
    }
}

} // verus!
