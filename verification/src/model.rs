//! The contract as a mathematical value, and what each request makes of it.
//!
//! Every request of the contract is specified here as a function from the
//! state before the request to its failure, if it fails, and to the state
//! after it, if it does not.

use crate::account_map::{delete, keys_distinct, lookup, put};
use crate::accounting::{available, claimable};
use crate::schedule::{accrual_window_spec, reward, reward_numerator};
use crate::types::{CallContext, ContractError, Settlement, StakeInfo, UserOperationState};
use vstd::prelude::*;

verus! {

/// Nanoseconds in a second: block times come in nanoseconds.
pub const NANOSECONDS: u64 = 1_000_000_000;

/// The largest reward cap that the owner may configure.
pub const MAX_TOTAL_REWARD: u128 = 100_000_000_000_000_000_000_000_000;

/// The largest lock duration that the owner may configure: four weeks.
pub const MAX_LOCK_DURATION: u64 = 2_419_200;

/// The lock duration of a new contract: two weeks.
pub const DEFAULT_LOCK_DURATION: u64 = 1_209_600;

/// The version of the state layout.
pub const CURRENT_STATE_VERSION: u32 = 1;

/// Gas that an upgrade keeps back from the migration hook.
pub const OUTER_UPGRADE_GAS: u64 = 20_000_000_000_000;

/// How many records a listing holds where no limit is given.
pub const DEFAULT_PAGE_LIMIT: u64 = 50;

/// The time of a block in seconds.
pub open spec fn seconds(block_timestamp: u64) -> u64 {
    block_timestamp / NANOSECONDS
}

/// The gas that an upgrade leaves for the migration hook: the gas prepaid
/// less the gas used and less `OUTER_UPGRADE_GAS`, and nothing where that
/// is negative.
pub open spec fn migrate_gas(prepaid_gas: u64, used_gas: u64) -> int {
    if prepaid_gas - used_gas - OUTER_UPGRADE_GAS > 0 {
        prepaid_gas - used_gas - OUTER_UPGRADE_GAS
    } else {
        0
    }
}

/// The record of an account that deposits for the first time at `now`.
pub open spec fn opening_record(now: u64) -> StakeInfo {
    StakeInfo { amount: 0, accumulated_reward: 0, first_stake_time: now, start_time: now }
}

/// The record that a failed transfer puts back.
pub open spec fn restored_record(settlement: Settlement) -> StakeInfo {
    StakeInfo {
        amount: settlement.stake_amount,
        accumulated_reward: settlement.before_reward_amount,
        first_stake_time: settlement.first_stake_time,
        start_time: settlement.start_time,
    }
}

/// The state of the contract.
pub struct ContractView {
    pub owner_id: Seq<char>,
    pub token_contract: Seq<char>,
    /// The stake records, in listing order.
    pub stakes: Seq<(Seq<char>, StakeInfo)>,
    /// The stored operation states.
    pub states: Map<Seq<char>, UserOperationState>,
    /// The schedule anchor, in seconds.
    pub stake_start_time: u64,
    pub lock_duration: u64,
    pub stake_paused: bool,
    /// The reward cut-off, in seconds; zero where there is none.
    pub stake_end_time: u64,
    pub total_staked: u128,
    pub total_claimed_reward: u128,
    pub total_reward: u128,
}

impl ContractView {
    /// No account has two stake records.
    pub open spec fn wf(self) -> bool {
        keys_distinct(self.stakes)
    }

    /// Whether `self` is configured as `other` is: the same owner, token
    /// ledger, schedule anchor, lock duration, pause, cut-off and reward
    /// cap.
    pub open spec fn same_configuration(self, other: ContractView) -> bool {
        &&& self.owner_id == other.owner_id
        &&& self.token_contract == other.token_contract
        &&& self.stake_start_time == other.stake_start_time
        &&& self.lock_duration == other.lock_duration
        &&& self.stake_paused == other.stake_paused
        &&& self.stake_end_time == other.stake_end_time
        &&& self.total_reward == other.total_reward
    }

    /// The stake record of `account`, if it has one.
    pub open spec fn record(self, account: Seq<char>) -> Option<StakeInfo> {
        lookup(self.stakes, account)
    }

    /// The operation state of `account`: the stored one, or idle.
    pub open spec fn op_state(self, account: Seq<char>) -> UserOperationState {
        if self.states.dom().contains(account) {
            self.states[account]
        } else {
            UserOperationState::Idle
        }
    }

    /// The undivided reward that `record` has earned at `now` and that is
    /// not folded into it yet, with the cut-off applied.
    pub open spec fn earned_numerator(self, record: StakeInfo, now: u64) -> int {
        let window = accrual_window_spec(now, self.stake_end_time, record.start_time);
        reward_numerator(
            self.stake_start_time as int,
            record.amount as int,
            window.0 as int,
            window.1 as int,
        )
    }

    /// The reward that `record` has earned at `now` and that is not folded
    /// into it yet, with the cut-off applied: no reward accrues after the
    /// cut-off.
    pub open spec fn earned(self, record: StakeInfo, now: u64) -> int {
        let window = accrual_window_spec(now, self.stake_end_time, record.start_time);
        reward(
            self.stake_start_time as int,
            record.amount as int,
            window.0 as int,
            window.1 as int,
        )
    }

    // Deposits

    /// The record that a deposit at `now` adds to: the account's record, or
    /// the opening record of an account without one.
    pub open spec fn deposit_base(self, account: Seq<char>, now: u64) -> StakeInfo {
        match self.record(account) {
            Some(record) => record,
            None => opening_record(now),
        }
    }

    /// Whether every number of a deposit fits in 128 bits. For an account
    /// without a record there is no reward to fold.
    pub open spec fn deposit_fits(self, account: Seq<char>, amount: u128, now: u64) -> bool {
        match self.record(account) {
            None => self.total_staked + amount <= u128::MAX,
            Some(record) => {
                &&& self.earned_numerator(record, now) <= u128::MAX
                &&& record.accumulated_reward + self.earned(record, now) <= u128::MAX
                &&& record.amount + amount <= u128::MAX
                &&& self.total_staked + amount <= u128::MAX
            },
        }
    }

    /// The record of `account` after a deposit of `amount` at `now`. A first
    /// deposit opens the record with the deposit as its principal; a later
    /// one folds the reward earned so far, adds to the principal and starts
    /// the accrual window anew.
    pub open spec fn deposited(self, account: Seq<char>, amount: u128, now: u64) -> StakeInfo {
        match self.record(account) {
            None => StakeInfo {
                amount,
                accumulated_reward: 0,
                first_stake_time: now,
                start_time: now,
            },
            Some(record) => StakeInfo {
                amount: (record.amount + amount) as u128,
                accumulated_reward: (record.accumulated_reward + self.earned(record, now)) as u128,
                first_stake_time: record.first_stake_time,
                start_time: now,
            },
        }
    }

    /// Why a deposit of `amount` for `sender` fails, if it does.
    pub open spec fn deposit_error(self, context: CallContext, sender: Seq<char>, amount: u128)
        -> Option<ContractError> {
        if context.predecessor_account_id@ != self.token_contract {
            Some(ContractError::WrongToken)
        } else if self.stake_paused {
            Some(ContractError::StakePaused)
        } else if !(self.op_state(sender) is Idle) {
            Some(ContractError::StateConflict)
        } else if !self.deposit_fits(sender, amount, seconds(context.block_timestamp)) {
            Some(ContractError::Overflow)
        } else {
            None
        }
    }

    /// The contract after a deposit of `amount` for `sender` at `now`.
    pub open spec fn after_deposit(self, sender: Seq<char>, amount: u128, now: u64)
        -> ContractView {
        ContractView {
            stakes: put(self.stakes, sender, self.deposited(sender, amount, now)),
            states: self.states.insert(sender, UserOperationState::Idle),
            total_staked: (self.total_staked + amount) as u128,
            ..self
        }
    }

    // Unstaking

    /// The part of the reward earned at `now` that the pool still covers.
    pub open spec fn claim(self, record: StakeInfo, now: u64) -> int {
        claimable(
            self.earned(record, now),
            self.total_reward as int,
            self.total_claimed_reward as int,
        )
    }

    /// Whether the lock of `record` has run out at `now`. Before that an
    /// unstake pays the principal only.
    pub open spec fn matured(self, record: StakeInfo, now: u64) -> bool {
        now > record.first_stake_time + self.lock_duration
    }

    /// The reward that an unstake of `record` at `now` pays out.
    pub open spec fn payout_reward(self, record: StakeInfo, now: u64) -> int {
        if self.matured(record, now) {
            record.accumulated_reward + self.claim(record, now)
        } else {
            0
        }
    }

    /// All that an unstake of `record` at `now` pays out.
    pub open spec fn payout(self, record: StakeInfo, now: u64) -> int {
        record.amount + self.payout_reward(record, now)
    }

    /// Whether every number of an unstake fits in 128 bits.
    pub open spec fn unstake_fits(self, record: StakeInfo, now: u64) -> bool {
        &&& self.earned_numerator(record, now) <= u128::MAX
        &&& record.accumulated_reward + self.claim(record, now) <= u128::MAX
        &&& self.payout(record, now) <= u128::MAX
    }

    /// What an unstake of `record` at `now` hands to its settlement.
    pub open spec fn settlement(self, record: StakeInfo, now: u64) -> Settlement {
        Settlement {
            stake_amount: record.amount,
            reward_amount: self.payout_reward(record, now) as u128,
            first_stake_time: record.first_stake_time,
            start_time: record.start_time,
            before_reward_amount: record.accumulated_reward,
        }
    }

    /// Why the caller's unstake fails, if it does. An operation in flight is
    /// found before a missing record.
    pub open spec fn unstake_error(self, context: CallContext) -> Option<ContractError> {
        let account = context.predecessor_account_id@;
        if context.attached_deposit != 1 {
            Some(ContractError::RequiresOneYocto)
        } else if !(self.op_state(account) is Idle) {
            Some(ContractError::StateConflict)
        } else {
            match self.record(account) {
                None => Some(ContractError::NoStake),
                Some(record) => if self.unstake_fits(record, seconds(context.block_timestamp)) {
                    None
                } else {
                    Some(ContractError::Overflow)
                },
            }
        }
    }

    /// The contract after the unstake of `account` was accepted: its record
    /// is gone and its settlement is pending.
    pub open spec fn after_unstake(self, account: Seq<char>) -> ContractView {
        ContractView {
            stakes: delete(self.stakes, account),
            states: self.states.insert(account, UserOperationState::Unstaking),
            ..self
        }
    }

    // Settlement

    /// Whether the counters can take a settlement.
    pub open spec fn commit_fits(self, settlement: Settlement) -> bool {
        &&& settlement.stake_amount <= self.total_staked
        &&& self.total_claimed_reward + settlement.reward_amount <= u128::MAX
    }

    /// The contract after the transfer of a settlement succeeded.
    pub open spec fn after_commit(self, account: Seq<char>, settlement: Settlement)
        -> ContractView {
        ContractView {
            states: self.states.insert(account, UserOperationState::Idle),
            total_staked: (self.total_staked - settlement.stake_amount) as u128,
            total_claimed_reward: (self.total_claimed_reward + settlement.reward_amount) as u128,
            ..self
        }
    }

    /// The contract after the transfer of a settlement failed.
    pub open spec fn after_rollback(self, account: Seq<char>, settlement: Settlement)
        -> ContractView {
        ContractView {
            stakes: put(self.stakes, account, restored_record(settlement)),
            states: self.states.insert(account, UserOperationState::Idle),
            ..self
        }
    }

    // Queries

    /// Whether the projection of `record` to `now` fits in 128 bits.
    pub open spec fn projection_fits(self, record: StakeInfo, now: u64) -> bool {
        &&& self.earned_numerator(record, now) <= u128::MAX
        &&& record.accumulated_reward + self.earned(record, now) <= u128::MAX
    }

    /// `record` with the reward earned up to `now` added.
    pub open spec fn projected(self, record: StakeInfo, now: u64) -> StakeInfo {
        StakeInfo {
            accumulated_reward: (record.accumulated_reward + self.earned(record, now)) as u128,
            ..record
        }
    }

    /// What the owner may withdraw of the contract's token `balance`.
    pub open spec fn withdrawable(self, balance: u128) -> int {
        available(
            balance as int,
            self.total_staked as int,
            self.total_reward as int,
            self.total_claimed_reward as int,
        )
    }

    /// The contract that `owner_id` sets up at `now` for the deposits of
    /// `token_contract`, with a reward pool of `total_reward`.
    pub open spec fn initial(
        owner_id: Seq<char>,
        token_contract: Seq<char>,
        total_reward: u128,
        now: u64,
    ) -> ContractView {
        ContractView {
            owner_id,
            token_contract,
            stakes: Seq::empty(),
            states: Map::empty(),
            stake_start_time: now,
            lock_duration: DEFAULT_LOCK_DURATION,
            stake_paused: false,
            stake_end_time: 0,
            total_staked: 0,
            total_claimed_reward: 0,
            total_reward,
        }
    }

    /// Why a new lock duration is refused, if it is.
    pub open spec fn lock_duration_error(self, context: CallContext, lock_duration: u64)
        -> Option<ContractError> {
        if self.owner_error(context) is Some {
            self.owner_error(context)
        } else if lock_duration > MAX_LOCK_DURATION {
            Some(ContractError::LockDurationTooLong)
        } else {
            None
        }
    }

    /// Why a new owner is refused, if it is.
    pub open spec fn owner_update_error(self, context: CallContext, new_owner: Seq<char>)
        -> Option<ContractError> {
        if self.owner_error(context) is Some {
            self.owner_error(context)
        } else if new_owner.len() == 0 {
            Some(ContractError::EmptyOwner)
        } else {
            None
        }
    }

    /// Why a new end time is refused, if it is: an end time is set while
    /// staking is paused, and cleared while it runs.
    pub open spec fn end_time_error(self, context: CallContext, end_time: u64) -> Option<
        ContractError,
    > {
        if self.owner_error(context) is Some {
            self.owner_error(context)
        } else if (end_time == 0) == self.stake_paused {
            Some(ContractError::EndTimeWrongPhase)
        } else {
            None
        }
    }

    /// Why a new reward cap is refused, if it is.
    pub open spec fn total_reward_error(self, context: CallContext, total_reward: u128)
        -> Option<ContractError> {
        if self.owner_error(context) is Some {
            self.owner_error(context)
        } else if total_reward == 0 {
            Some(ContractError::ZeroTotalReward)
        } else if total_reward > MAX_TOTAL_REWARD {
            Some(ContractError::TotalRewardTooLarge)
        } else {
            None
        }
    }

    /// Why a withdrawal is not begun, if it is not.
    pub open spec fn withdraw_error(self, context: CallContext) -> Option<ContractError> {
        if self.owner_error(context) is Some {
            self.owner_error(context)
        } else if !self.stake_paused {
            Some(ContractError::StakeNotPaused)
        } else {
            None
        }
    }

    /// Why an owner's request with an attached deposit fails, if it does.
    pub open spec fn owner_error(self, context: CallContext) -> Option<ContractError> {
        if context.attached_deposit != 1 {
            Some(ContractError::RequiresOneYocto)
        } else if context.predecessor_account_id@ != self.owner_id {
            Some(ContractError::NotOwner)
        } else {
            None
        }
    }
}

} // verus!
