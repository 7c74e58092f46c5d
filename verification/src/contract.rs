//! The staking contract: its state and its requests.

use crate::account_map::{
    as_map, keys_distinct, lemma_delete, lemma_put, page_of, pairs, put, AccountMap,
};
use crate::accounting::{claimable_reward, withdrawable};
use crate::model::{
    migrate_gas, restored_record, seconds, ContractView, CURRENT_STATE_VERSION,
    DEFAULT_LOCK_DURATION, DEFAULT_PAGE_LIMIT, MAX_LOCK_DURATION, MAX_TOTAL_REWARD, NANOSECONDS,
    OUTER_UPGRADE_GAS,
};
use crate::schedule::{accrual_window, accrued_reward, reward, reward_numerator, AAR_EARLY};
use crate::types::{
    CallContext, ContractError, ContractState, PromiseError, Settlement, StakeInfo,
    TransferRequest, UnstakeRequest, UpgradeRequest, UserOperationState, WithdrawRequest,
};
use vstd::prelude::*;

verus! {

/// The staking contract.
#[derive(Debug)]
pub struct StakingContract {
    owner_id: String,
    token_contract: String,
    staked_balances: AccountMap<StakeInfo>,
    user_states: AccountMap<UserOperationState>,
    stake_start_time: u64,
    lock_duration: u64,
    stake_paused: bool,
    stake_end_time: u64,
    total_staked: u128,
    total_claimed_reward: u128,
    total_reward: u128,
}

impl View for StakingContract {
    type V = ContractView;

    closed spec fn view(&self) -> ContractView {
        ContractView {
            owner_id: self.owner_id@,
            token_contract: self.token_contract@,
            stakes: self.staked_balances@,
            states: self.user_states.map(),
            stake_start_time: self.stake_start_time,
            lock_duration: self.lock_duration,
            stake_paused: self.stake_paused,
            stake_end_time: self.stake_end_time,
            total_staked: self.total_staked,
            total_claimed_reward: self.total_claimed_reward,
            total_reward: self.total_reward,
        }
    }
}

/// The state that `state` describes.
pub open spec fn state_view(state: ContractState) -> ContractView {
    ContractView {
        owner_id: state.owner_id@,
        token_contract: state.token_contract@,
        stakes: pairs(state.staked_balances@),
        states: as_map(pairs(state.user_states@)),
        stake_start_time: state.stake_start_time,
        lock_duration: state.lock_duration,
        stake_paused: state.stake_paused,
        stake_end_time: state.stake_end_time,
        total_staked: state.total_staked,
        total_claimed_reward: state.total_claimed_reward,
        total_reward: state.total_reward,
    }
}

impl StakingContract {
    /// Sets up the contract for `owner_id` and the deposits of
    /// `token_contract`, with a reward pool of `total_reward`. The time of
    /// the block becomes the schedule anchor.
    ///
    /// `state_exists` tells whether the host holds a contract state already.
    pub fn new(
        context: &CallContext,
        state_exists: bool,
        owner_id: String,
        token_contract: String,
        total_reward: u128,
    ) -> (result: Result<StakingContract, ContractError>)
        ensures
            state_exists ==> result matches Err(ContractError::AlreadyInitialized),
            !state_exists && total_reward == 0 ==> result matches Err(
                ContractError::ZeroTotalReward,
            ),
            !state_exists && total_reward > 0 ==> {
                &&& result matches Ok(contract)
                &&& contract@ == ContractView::initial(
                    owner_id@,
                    token_contract@,
                    total_reward,
                    seconds(context.block_timestamp),
                )
                &&& contract@.wf()
            },
    {
        if state_exists {
            return Err(ContractError::AlreadyInitialized);
        }
        if total_reward == 0 {
            return Err(ContractError::ZeroTotalReward);
        }
        let current_time: u64 = context.block_timestamp / NANOSECONDS;
        let contract = StakingContract {
            owner_id,
            token_contract,
            staked_balances: AccountMap::new(),
            user_states: AccountMap::new(),
            stake_paused: false,
            stake_start_time: current_time,
            lock_duration: DEFAULT_LOCK_DURATION,
            stake_end_time: 0,
            total_staked: 0,
            total_claimed_reward: 0,
            total_reward,
        };
        assert(contract@.states =~= Map::empty());
        Ok(contract)
    }

    /// Builds the contract that `state` describes. `None` says that an
    /// account occurs twice among the records or among the states.
    pub fn restore(state: ContractState) -> (restored: Option<StakingContract>)
        ensures
            restored is Some <==> keys_distinct(pairs(state.staked_balances@)) && keys_distinct(
                pairs(state.user_states@),
            ),
            restored matches Some(contract) ==> contract@ == state_view(state) && contract@.wf(),
    {
        let staked_balances = match AccountMap::from_entries(state.staked_balances) {
            Some(store) => store,
            None => {
                return None;
            },
        };
        let user_states = match AccountMap::from_entries(state.user_states) {
            Some(store) => store,
            None => {
                return None;
            },
        };
        Some(
            StakingContract {
                owner_id: state.owner_id,
                token_contract: state.token_contract,
                staked_balances,
                user_states,
                stake_start_time: state.stake_start_time,
                lock_duration: state.lock_duration,
                stake_paused: state.stake_paused,
                stake_end_time: state.stake_end_time,
                total_staked: state.total_staked,
                total_claimed_reward: state.total_claimed_reward,
                total_reward: state.total_reward,
            },
        )
    }

    /// All that the contract holds, as plain values.
    pub fn snapshot(&self) -> (state: ContractState)
        ensures
            state_view(state) == self@,
            keys_distinct(pairs(state.staked_balances@)),
            keys_distinct(pairs(state.user_states@)),
    {
        proof {
            use_type_invariant(&self.staked_balances);
            use_type_invariant(&self.user_states);
        }
        ContractState {
            owner_id: self.owner_id.clone(),
            token_contract: self.token_contract.clone(),
            staked_balances: self.staked_balances.entries(),
            user_states: self.user_states.entries(),
            stake_start_time: self.stake_start_time,
            lock_duration: self.lock_duration,
            stake_paused: self.stake_paused,
            stake_end_time: self.stake_end_time,
            total_staked: self.total_staked,
            total_claimed_reward: self.total_claimed_reward,
            total_reward: self.total_reward,
        }
    }

    fn check_owner(&self, context: &CallContext) -> (result: Result<(), ContractError>)
        ensures
            match self@.owner_error(*context) {
                Some(error) => result == Err::<(), ContractError>(error),
                None => result is Ok,
            },
    {
        if context.attached_deposit != 1 {
            return Err(ContractError::RequiresOneYocto);
        }
        if context.predecessor_account_id != self.owner_id {
            return Err(ContractError::NotOwner);
        }
        Ok(())
    }

    /// Pauses staking, or lets it run again. Only the owner may do so.
    pub fn pause_stake(&mut self, context: &CallContext, pause: bool) -> (result: Result<
        (),
        ContractError,
    >)
        ensures
            match old(self)@.owner_error(*context) {
                Some(error) => {
                    &&& result == Err::<(), ContractError>(error)
                    &&& final(self)@ == old(self)@
                },
                None => {
                    &&& result is Ok
                    &&& final(self)@ == (ContractView { stake_paused: pause, ..old(self)@ })
                },
            },
    {
        match self.check_owner(context) {
            Ok(()) => {
                self.stake_paused = pause;
                Ok(())
            },
            Err(error) => Err(error),
        }
    }

    /// Sets the lock duration, at most `MAX_LOCK_DURATION`. Only the owner
    /// may do so.
    pub fn set_lock_duration(&mut self, context: &CallContext, lock_duration: u64) -> (result:
        Result<(), ContractError>)
        ensures
            match old(self)@.lock_duration_error(*context, lock_duration) {
                Some(error) => {
                    &&& result == Err::<(), ContractError>(error)
                    &&& final(self)@ == old(self)@
                },
                None => {
                    &&& result is Ok
                    &&& final(self)@ == (ContractView { lock_duration, ..old(self)@ })
                },
            },
    {
        match self.check_owner(context) {
            Ok(()) => {},
            Err(error) => {
                return Err(error);
            },
        }
        if lock_duration > MAX_LOCK_DURATION {
            return Err(ContractError::LockDurationTooLong);
        }
        self.lock_duration = lock_duration;
        Ok(())
    }

    /// Hands the contract to `new_owner`. Only the owner may do so.
    pub fn update_owner(&mut self, context: &CallContext, new_owner: String) -> (result: Result<
        bool,
        ContractError,
    >)
        ensures
            match old(self)@.owner_update_error(*context, new_owner@) {
                Some(error) => {
                    &&& result == Err::<bool, ContractError>(error)
                    &&& final(self)@ == old(self)@
                },
                None => {
                    &&& result == Ok::<bool, ContractError>(true)
                    &&& final(self)@ == (ContractView { owner_id: new_owner@, ..old(self)@ })
                },
            },
    {
        match self.check_owner(context) {
            Ok(()) => {},
            Err(error) => {
                return Err(error);
            },
        }
        if new_owner.as_str().is_empty() {
            return Err(ContractError::EmptyOwner);
        }
        self.owner_id = new_owner;
        Ok(true)
    }

    /// Sets the time after which no reward accrues, or clears it with zero.
    /// An end time is set while staking is paused, and cleared while it
    /// runs. Only the owner may do so.
    pub fn set_stake_end_time(&mut self, context: &CallContext, end_time: u64) -> (result: Result<
        (),
        ContractError,
    >)
        ensures
            match old(self)@.end_time_error(*context, end_time) {
                Some(error) => {
                    &&& result == Err::<(), ContractError>(error)
                    &&& final(self)@ == old(self)@
                },
                None => {
                    &&& result is Ok
                    &&& final(self)@ == (ContractView { stake_end_time: end_time, ..old(self)@ })
                },
            },
    {
        match self.check_owner(context) {
            Ok(()) => {},
            Err(error) => {
                return Err(error);
            },
        }
        if end_time == 0 {
            if self.stake_paused {
                return Err(ContractError::EndTimeWrongPhase);
            }
        } else {
            if !self.stake_paused {
                return Err(ContractError::EndTimeWrongPhase);
            }
        }
        self.stake_end_time = end_time;
        Ok(())
    }

    /// Sets the reward cap: positive, and at most `MAX_TOTAL_REWARD`. Only
    /// the owner may do so.
    pub fn set_total_reward(&mut self, context: &CallContext, total_reward: u128) -> (result:
        Result<(), ContractError>)
        ensures
            match old(self)@.total_reward_error(*context, total_reward) {
                Some(error) => {
                    &&& result == Err::<(), ContractError>(error)
                    &&& final(self)@ == old(self)@
                },
                None => {
                    &&& result is Ok
                    &&& final(self)@ == (ContractView { total_reward, ..old(self)@ })
                },
            },
    {
        match self.check_owner(context) {
            Ok(()) => {},
            Err(error) => {
                return Err(error);
            },
        }
        if total_reward == 0 {
            return Err(ContractError::ZeroTotalReward);
        }
        if total_reward > MAX_TOTAL_REWARD {
            return Err(ContractError::TotalRewardTooLarge);
        }
        self.total_reward = total_reward;
        Ok(())
    }

    /// The operation state of `account_id`. An account without a stored
    /// state is idle.
    pub fn operation_state(&self, account_id: &String) -> (state: UserOperationState)
        ensures
            state == self@.op_state(account_id@),
    {
        match self.user_states.get(account_id) {
            Some(state) => state,
            None => UserOperationState::Idle,
        }
    }

    /// Takes a deposit of `amount` that the token ledger announces for
    /// `sender_id`.
    ///
    /// The reward that the sender's record has earned so far, up to the
    /// cut-off where one is reached, is folded into it, the deposit is added
    /// to its principal, and its accrual window starts anew at the time of
    /// the block. The result is the part of the deposit that is handed back:
    /// nothing.
    #[allow(unused_variables)]
    pub fn ft_on_transfer(
        &mut self,
        context: &CallContext,
        sender_id: String,
        amount: u128,
        msg: String,
    ) -> (result: Result<u128, ContractError>)
        ensures
            final(self)@.wf(),
            match old(self)@.deposit_error(*context, sender_id@, amount) {
                Some(error) => {
                    &&& result == Err::<u128, ContractError>(error)
                    &&& final(self)@ == old(self)@
                },
                None => {
                    let now = seconds(context.block_timestamp);
                    &&& result == Ok::<u128, ContractError>(0)
                    &&& final(self)@ == old(self)@.after_deposit(sender_id@, amount, now)
                    &&& final(self)@.record(sender_id@) == Some(
                        old(self)@.deposited(sender_id@, amount, now),
                    )
                    &&& final(self)@.op_state(sender_id@) is Idle
                },
            },
            forall|other: Seq<char>|
                other != sender_id@ ==> #[trigger] final(self)@.record(other)
                    == old(self)@.record(other),
            forall|other: Seq<char>|
                other != sender_id@ ==> #[trigger] final(self)@.op_state(other)
                    == old(self)@.op_state(other),
    {
        proof {
            use_type_invariant(&self.staked_balances);
            use_type_invariant(&self.user_states);
        }
        let state = self.operation_state(&sender_id);
        if context.predecessor_account_id != self.token_contract {
            return Err(ContractError::WrongToken);
        }
        if self.stake_paused {
            return Err(ContractError::StakePaused);
        }
        let staking = match state.begin_staking() {
            Ok(next) => next,
            Err(error) => {
                return Err(error);
            },
        };
        let current_time: u64 = context.block_timestamp / NANOSECONDS;
        let stake_info = match self.staked_balances.get(&sender_id) {
            Some(record) => record,
            None => StakeInfo {
                amount: 0,
                accumulated_reward: 0,
                first_stake_time: current_time,
                start_time: current_time,
            },
        };
        let (start_time, reward_end_time) = accrual_window(
            current_time,
            self.stake_end_time,
            stake_info.start_time,
        );
        let reward = match accrued_reward(
            self.stake_start_time,
            stake_info.amount,
            start_time,
            reward_end_time,
        ) {
            Some(reward) => reward,
            None => {
                return Err(ContractError::Overflow);
            },
        };
        let accumulated_reward = match stake_info.accumulated_reward.checked_add(reward) {
            Some(sum) => sum,
            None => {
                return Err(ContractError::Overflow);
            },
        };
        let principal = match stake_info.amount.checked_add(amount) {
            Some(sum) => sum,
            None => {
                return Err(ContractError::Overflow);
            },
        };
        let total_staked = match self.total_staked.checked_add(amount) {
            Some(sum) => sum,
            None => {
                return Err(ContractError::Overflow);
            },
        };
        let updated = StakeInfo {
            amount: principal,
            accumulated_reward,
            first_stake_time: stake_info.first_stake_time,
            start_time: current_time,
        };
        self.user_states.insert(sender_id.clone(), staking);
        self.staked_balances.insert(sender_id.clone(), updated);
        self.total_staked = total_staked;
        self.user_states.insert(sender_id, staking.finish());
        proof {
            let held = put(old(self).user_states@, sender_id@, UserOperationState::Staking);
            lemma_put(old(self).user_states@, sender_id@, UserOperationState::Staking);
            lemma_put(held, sender_id@, UserOperationState::Idle);
            lemma_put(old(self).staked_balances@, sender_id@, updated);
            assert(final(self)@.states =~= old(self)@.states.insert(
                sender_id@,
                UserOperationState::Idle,
            ));
        }
        Ok(0)
    }

    /// Starts the unstake of all that the caller has staked.
    ///
    /// Where the request is accepted, the caller's record is removed, its
    /// account is held in `Unstaking` until the settlement, and the result
    /// names the transfer to make and what the settlement is to be told.
    /// The reward earned since the last deposit is cut to what the reward
    /// pool still covers; before the lock has run out, no reward is paid.
    pub fn unstake(&mut self, context: &CallContext) -> (result: Result<
        UnstakeRequest,
        ContractError,
    >)
        ensures
            final(self)@.wf(),
            match old(self)@.unstake_error(*context) {
                Some(error) => {
                    &&& result == Err::<UnstakeRequest, ContractError>(error)
                    &&& final(self)@ == old(self)@
                },
                None => {
                    let account = context.predecessor_account_id@;
                    let now = seconds(context.block_timestamp);
                    let record = old(self)@.record(account).unwrap();
                    &&& result matches Ok(request)
                    &&& request.transfer.token_contract@ == old(self)@.token_contract
                    &&& request.transfer.receiver_id@ == account
                    &&& request.transfer.amount == old(self)@.payout(record, now)
                    &&& request.settlement == old(self)@.settlement(record, now)
                    &&& final(self)@ == old(self)@.after_unstake(account)
                    &&& final(self)@.record(account) is None
                    &&& final(self)@.op_state(account) is Unstaking
                },
            },
            forall|other: Seq<char>|
                other != context.predecessor_account_id@ ==> #[trigger] final(self)@.record(other)
                    == old(self)@.record(other),
            forall|other: Seq<char>|
                other != context.predecessor_account_id@ ==> #[trigger] final(self)@.op_state(other)
                    == old(self)@.op_state(other),
    {
        proof {
            use_type_invariant(&self.staked_balances);
            use_type_invariant(&self.user_states);
        }
        let state = self.operation_state(&context.predecessor_account_id);
        if context.attached_deposit != 1 {
            return Err(ContractError::RequiresOneYocto);
        }
        let unstaking = match state.begin_unstaking() {
            Ok(next) => next,
            Err(error) => {
                return Err(error);
            },
        };
        let stake_info = match self.staked_balances.get(&context.predecessor_account_id) {
            Some(record) => record,
            None => {
                return Err(ContractError::NoStake);
            },
        };
        let current_time: u64 = context.block_timestamp / NANOSECONDS;
        let (start_time, reward_end_time) = accrual_window(
            current_time,
            self.stake_end_time,
            stake_info.start_time,
        );
        let earned = match accrued_reward(
            self.stake_start_time,
            stake_info.amount,
            start_time,
            reward_end_time,
        ) {
            Some(reward) => reward,
            None => {
                return Err(ContractError::Overflow);
            },
        };
        let claim_reward = claimable_reward(earned, self.total_reward, self.total_claimed_reward);
        let before_accumulated_reward = stake_info.accumulated_reward;
        let accumulated_reward = match before_accumulated_reward.checked_add(claim_reward) {
            Some(sum) => sum,
            None => {
                return Err(ContractError::Overflow);
            },
        };
        let matured = current_time as u128 > stake_info.first_stake_time as u128
            + self.lock_duration as u128;
        let reward_amount: u128 = if matured { accumulated_reward } else { 0 };
        let total_payout = match stake_info.amount.checked_add(reward_amount) {
            Some(sum) => sum,
            None => {
                return Err(ContractError::Overflow);
            },
        };
        self.user_states.insert(context.predecessor_account_id.clone(), unstaking);
        self.staked_balances.remove(&context.predecessor_account_id);
        proof {
            lemma_put(
                old(self).user_states@,
                context.predecessor_account_id@,
                UserOperationState::Unstaking,
            );
            lemma_delete(old(self).staked_balances@, context.predecessor_account_id@);
        }
        Ok(
            UnstakeRequest {
                transfer: TransferRequest {
                    token_contract: self.token_contract.clone(),
                    receiver_id: context.predecessor_account_id.clone(),
                    amount: total_payout,
                },
                settlement: Settlement {
                    stake_amount: stake_info.amount,
                    reward_amount,
                    first_stake_time: stake_info.first_stake_time,
                    start_time: stake_info.start_time,
                    before_reward_amount: before_accumulated_reward,
                },
            },
        )
    }

    /// Settles a pending unstake of `account_id` once its transfer has
    /// ended, from the values that the unstake handed out.
    ///
    /// After a transfer that succeeded, the principal leaves the staked
    /// total and the reward paid joins the claimed total; the result is
    /// `true`. After one that failed, the record is put back as it was
    /// before the unstake and the counters stay; the result is `false`.
    /// Either way the account is idle again. Where the counters cannot take
    /// the settlement, nothing changes.
    pub fn on_ft_transfer_then_remove(
        &mut self,
        account_id: String,
        stake_amount: u128,
        reward_amount: u128,
        first_stake_time: u64,
        start_time: u64,
        before_reward_amount: u128,
        call_result: Result<(), PromiseError>,
    ) -> (result: Result<bool, ContractError>)
        ensures
            final(self)@.wf(),
            ({
                let settlement = Settlement {
                    stake_amount,
                    reward_amount,
                    first_stake_time,
                    start_time,
                    before_reward_amount,
                };
                if call_result is Err {
                    &&& result == Ok::<bool, ContractError>(false)
                    &&& final(self)@ == old(self)@.after_rollback(account_id@, settlement)
                    &&& final(self)@.record(account_id@) == Some(restored_record(settlement))
                    &&& final(self)@.op_state(account_id@) is Idle
                } else if old(self)@.commit_fits(settlement) {
                    &&& result == Ok::<bool, ContractError>(true)
                    &&& final(self)@ == old(self)@.after_commit(account_id@, settlement)
                    &&& final(self)@.record(account_id@) == old(self)@.record(account_id@)
                    &&& final(self)@.op_state(account_id@) is Idle
                } else {
                    &&& result == Err::<bool, ContractError>(ContractError::Overflow)
                    &&& final(self)@ == old(self)@
                }
            }),
            forall|other: Seq<char>|
                other != account_id@ ==> #[trigger] final(self)@.record(other)
                    == old(self)@.record(other),
            forall|other: Seq<char>|
                other != account_id@ ==> #[trigger] final(self)@.op_state(other)
                    == old(self)@.op_state(other),
    {
        proof {
            use_type_invariant(&self.staked_balances);
            use_type_invariant(&self.user_states);
        }
        match call_result {
            Ok(()) => {
                let total_staked = match self.total_staked.checked_sub(stake_amount) {
                    Some(rest) => rest,
                    None => {
                        return Err(ContractError::Overflow);
                    },
                };
                let total_claimed_reward = match self.total_claimed_reward.checked_add(
                    reward_amount,
                ) {
                    Some(sum) => sum,
                    None => {
                        return Err(ContractError::Overflow);
                    },
                };
                self.total_staked = total_staked;
                self.total_claimed_reward = total_claimed_reward;
                self.user_states.insert(account_id, UserOperationState::Idle);
                proof {
                    lemma_put(old(self).user_states@, account_id@, UserOperationState::Idle);
                }
                Ok(true)
            },
            Err(_) => {
                let stake_info = StakeInfo {
                    amount: stake_amount,
                    accumulated_reward: before_reward_amount,
                    first_stake_time,
                    start_time,
                };
                self.staked_balances.insert(account_id.clone(), stake_info);
                self.user_states.insert(account_id, UserOperationState::Idle);
                proof {
                    lemma_put(old(self).user_states@, account_id@, UserOperationState::Idle);
                }
                Ok(false)
            },
        }
    }

    /// The stake record of `account_id` as it stands at the time of the
    /// block: what is stored, with the reward earned since the last deposit
    /// added. Nothing is stored by this.
    pub fn get_stake_info(&self, context: &CallContext, account_id: String) -> (result: Result<
        Option<StakeInfo>,
        ContractError,
    >)
        ensures
            match self@.record(account_id@) {
                None => result == Ok::<Option<StakeInfo>, ContractError>(None),
                Some(record) => {
                    let now = seconds(context.block_timestamp);
                    if self@.projection_fits(record, now) {
                        result == Ok::<Option<StakeInfo>, ContractError>(
                            Some(self@.projected(record, now)),
                        )
                    } else {
                        result == Err::<Option<StakeInfo>, ContractError>(ContractError::Overflow)
                    }
                },
            },
    {
        match self.staked_balances.get(&account_id) {
            Some(stake_info) => {
                let current_time: u64 = context.block_timestamp / NANOSECONDS;
                let (start_time, reward_end_time) = accrual_window(
                    current_time,
                    self.stake_end_time,
                    stake_info.start_time,
                );
                let reward = match accrued_reward(
                    self.stake_start_time,
                    stake_info.amount,
                    start_time,
                    reward_end_time,
                ) {
                    Some(reward) => reward,
                    None => {
                        return Err(ContractError::Overflow);
                    },
                };
                match stake_info.accumulated_reward.checked_add(reward) {
                    Some(accumulated_reward) => Ok(
                        Some(
                            StakeInfo {
                                amount: stake_info.amount,
                                accumulated_reward,
                                first_stake_time: stake_info.first_stake_time,
                                start_time: stake_info.start_time,
                            },
                        ),
                    ),
                    None => Err(ContractError::Overflow),
                }
            },
            None => Ok(None),
        }
    }

    /// Begins a withdrawal of `amount` by the owner while staking is
    /// paused. The result names the balance query to make, for the
    /// contract's own balance on the token ledger; its answer goes to
    /// [`StakingContract::on_check_balance_then_withdraw`]. Nothing is
    /// changed by this.
    pub fn withdraw_token(&mut self, context: &CallContext, amount: u128) -> (result: Result<
        WithdrawRequest,
        ContractError,
    >)
        ensures
            final(self)@ == old(self)@,
            match old(self)@.withdraw_error(*context) {
                Some(error) => result == Err::<WithdrawRequest, ContractError>(error),
                None => {
                    &&& result matches Ok(request)
                    &&& request.token_contract@ == old(self)@.token_contract
                    &&& request.account_id@ == context.current_account_id@
                    &&& request.to@ == old(self)@.owner_id
                    &&& request.amount == amount
                },
            },
    {
        match self.check_owner(context) {
            Ok(()) => {},
            Err(error) => {
                return Err(error);
            },
        }
        if !self.stake_paused {
            return Err(ContractError::StakeNotPaused);
        }
        Ok(
            WithdrawRequest {
                token_contract: self.token_contract.clone(),
                account_id: context.current_account_id.clone(),
                to: self.owner_id.clone(),
                amount,
            },
        )
    }

    /// Decides a withdrawal once the contract's token balance is known.
    ///
    /// The owner may take what the balance holds above the frozen funds:
    /// the staked principal and the part of the reward pool that is not
    /// claimed yet. The result names the transfer to make.
    pub fn on_check_balance_then_withdraw(
        &self,
        token_contract: String,
        to: String,
        amount: u128,
        call_result: Result<Option<u128>, PromiseError>,
    ) -> (result: Result<TransferRequest, ContractError>)
        ensures
            match call_result {
                Ok(Some(balance)) => if amount <= self@.withdrawable(balance) {
                    &&& result matches Ok(request)
                    &&& request.token_contract@ == token_contract@
                    &&& request.receiver_id@ == to@
                    &&& request.amount == amount
                } else {
                    result == Err::<TransferRequest, ContractError>(
                        ContractError::InsufficientBalance,
                    )
                },
                _ => result == Err::<TransferRequest, ContractError>(
                    ContractError::BalanceQueryFailed,
                ),
            },
    {
        let balance = match call_result {
            Ok(Some(balance)) => balance,
            _ => {
                return Err(ContractError::BalanceQueryFailed);
            },
        };
        let available = withdrawable(
            balance,
            self.total_staked,
            self.total_reward,
            self.total_claimed_reward,
        );
        if amount > available {
            return Err(ContractError::InsufficientBalance);
        }
        Ok(TransferRequest { token_contract, receiver_id: to, amount })
    }

    /// Takes over the state that was stored under the layout of version
    /// `from_version`: the state as it is, where one was read.
    #[allow(unused_variables)]
    pub fn migrate(from_version: u32, stored: Option<StakingContract>) -> (result: Result<
        StakingContract,
        ContractError,
    >)
        ensures
            match stored {
                Some(contract) => result == Ok::<StakingContract, ContractError>(contract),
                None => result == Err::<StakingContract, ContractError>(
                    ContractError::StateReadFailed,
                ),
            },
    {
        match stored {
            Some(contract) => Ok(contract),
            None => Err(ContractError::StateReadFailed),
        }
    }

    /// Accepts new contract code from the owner. The result names the
    /// deployment to make on the contract's own account: the code, the state
    /// version that the migration hook is told, and the gas left for the
    /// hook, which is the gas prepaid less the gas used and less
    /// `OUTER_UPGRADE_GAS`.
    pub fn update_contract(
        &self,
        context: &CallContext,
        code: Option<Vec<u8>>,
        prepaid_gas: u64,
        used_gas: u64,
    ) -> (result: Result<UpgradeRequest, ContractError>)
        ensures
            context.predecessor_account_id@ != self@.owner_id ==> result == Err::<
                UpgradeRequest,
                ContractError,
            >(ContractError::NotOwner),
            context.predecessor_account_id@ == self@.owner_id && code is None ==> result == Err::<
                UpgradeRequest,
                ContractError,
            >(ContractError::NoInput),
            context.predecessor_account_id@ == self@.owner_id && code is Some ==> {
                &&& result matches Ok(request)
                &&& request.account_id@ == context.current_account_id@
                &&& request.code == code.unwrap()
                &&& request.from_version == CURRENT_STATE_VERSION
                &&& request.migrate_gas == migrate_gas(prepaid_gas, used_gas)
            },
    {
        if context.predecessor_account_id != self.owner_id {
            return Err(ContractError::NotOwner);
        }
        let code = match code {
            Some(code) => code,
            None => {
                return Err(ContractError::NoInput);
            },
        };
        let migrate_gas = prepaid_gas.saturating_sub(used_gas).saturating_sub(OUTER_UPGRADE_GAS);
        Ok(
            UpgradeRequest {
                account_id: context.current_account_id.clone(),
                code,
                from_version: CURRENT_STATE_VERSION,
                migrate_gas,
            },
        )
    }

    /// The staked principal of all accounts.
    pub fn get_total_stake(&self) -> (total: u128)
        ensures
            total == self@.total_staked,
    {
        self.total_staked
    }

    /// The reward paid out so far.
    pub fn get_total_claimed_reward(&self) -> (total: u128)
        ensures
            total == self@.total_claimed_reward,
    {
        self.total_claimed_reward
    }

    /// The owner of the contract.
    pub fn owner(&self) -> (owner_id: String)
        ensures
            owner_id@ == self@.owner_id,
    {
        self.owner_id.clone()
    }

    /// The token ledger whose deposits the contract takes.
    pub fn token_contract(&self) -> (token_contract: String)
        ensures
            token_contract@ == self@.token_contract,
    {
        self.token_contract.clone()
    }

    /// The annualized rates of the weekly tiers, in basis points.
    pub fn get_aar(&self) -> (rates: [u128; 5])
        ensures
            rates == AAR_EARLY,
    {
        AAR_EARLY
    }

    /// The lock duration, in seconds.
    pub fn get_lock_duration(&self) -> (lock_duration: u64)
        ensures
            lock_duration == self@.lock_duration,
    {
        self.lock_duration
    }

    /// Lists stake records as they are stored, in listing order: at most
    /// `limit` of them, `DEFAULT_PAGE_LIMIT` where none is given, starting
    /// with the record at `offset`, the first where none is given.
    pub fn search_stake_infos(&self, offset: Option<u64>, limit: Option<u64>) -> (listed: Vec<
        (String, StakeInfo),
    >)
        ensures
            listed@.len() == pairs(listed@).len(),
            pairs(listed@) == page_of(
                self@.stakes,
                match offset {
                    Some(start) => start as int,
                    None => 0,
                },
                match limit {
                    Some(count) => count as int,
                    None => DEFAULT_PAGE_LIMIT as int,
                },
            ),
    {
        let start: u64 = match offset {
            Some(start) => start,
            None => 0,
        };
        let l: u64 = match limit {
            Some(count) => count,
            None => DEFAULT_PAGE_LIMIT,
        };
        let len = self.staked_balances.len();
        let from: usize = if start < len as u64 { start as usize } else { len };
        let count: usize = if l < len as u64 { l as usize } else { len };
        self.staked_balances.page(from, count)
    }

    /// The reward that `amount` earns from `start_time` to `current_time`
    /// under this contract's schedule; `None` where it does not fit in 128
    /// bits.
    pub fn calculate_reward(&self, amount: u128, current_time: u64, start_time: u64) -> (earned:
        Option<u128>)
        ensures
            earned is Some <==> reward_numerator(
                self@.stake_start_time as int,
                amount as int,
                start_time as int,
                current_time as int,
            ) <= u128::MAX,
            earned matches Some(r) ==> r == reward(
                self@.stake_start_time as int,
                amount as int,
                start_time as int,
                current_time as int,
            ),
    {
        accrued_reward(self.stake_start_time, amount, start_time, current_time)
    }
}

} // verus!
