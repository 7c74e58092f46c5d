//! Laws of the staking protocol, proved of the model of the contract.
//!
//! The requests of [`crate::contract::StakingContract`] are specified by the
//! functions of [`ContractView`]; the laws below state what follows from
//! them for runs of several requests.

use crate::account_map::{
    delete, has_key, keys_distinct, lemma_delete, lemma_put, lemma_total_delete, lemma_total_put,
    lookup, put, share, total,
};
use crate::accounting::frozen;
use crate::model::{restored_record, seconds, ContractView};
use crate::schedule::{
    accrual_window_spec, lemma_reward_bounds, lemma_weight_bounds, reward, reward_divisor,
};
use crate::types::{CallContext, ContractError, Settlement, StakeInfo, UserOperationState};
use vstd::prelude::*;

verus! {

// Deposits add up

/// One deposit of a run: its amount, and the time in seconds at which it
/// arrives.
pub struct Deposit {
    pub amount: u128,
    pub now: u64,
}

/// The contract after the deposits `run` have been taken for `account`, one
/// after the other.
pub open spec fn after_deposits(c: ContractView, account: Seq<char>, run: Seq<Deposit>)
    -> ContractView
    decreases run.len(),
{
    if run.len() == 0 {
        c
    } else {
        after_deposits(c, account, run.drop_last()).after_deposit(
            account,
            run.last().amount,
            run.last().now,
        )
    }
}

/// Whether every number of every deposit of `run` fits in 128 bits.
pub open spec fn deposits_fit(c: ContractView, account: Seq<char>, run: Seq<Deposit>) -> bool
    decreases run.len(),
{
    if run.len() == 0 {
        true
    } else {
        &&& deposits_fit(c, account, run.drop_last())
        &&& after_deposits(c, account, run.drop_last()).deposit_fits(
            account,
            run.last().amount,
            run.last().now,
        )
    }
}

/// The principal of a record that starts as `first` and takes the deposits
/// `run`: the sum of the amounts.
pub open spec fn principal_after(first: StakeInfo, run: Seq<Deposit>) -> int
    decreases run.len(),
{
    if run.len() == 0 {
        first.amount as int
    } else {
        principal_after(first, run.drop_last()) + run.last().amount
    }
}

/// Where the accrual window of a record starts that started as `first` and
/// took the deposits `run`: at the last deposit.
pub open spec fn cursor_after(first: StakeInfo, run: Seq<Deposit>) -> u64 {
    if run.len() == 0 {
        first.start_time
    } else {
        run.last().now
    }
}

/// The reward of a record that starts as `first` and takes the deposits
/// `run`: for each deposit, what the principal before it earned since the
/// deposit before it, under the schedule anchored at `anchor` and cut off
/// at `cutoff`.
pub open spec fn folded_reward(anchor: u64, cutoff: u64, first: StakeInfo, run: Seq<Deposit>)
    -> int
    decreases run.len(),
{
    if run.len() == 0 {
        first.accumulated_reward as int
    } else {
        let before = run.drop_last();
        let window = accrual_window_spec(run.last().now, cutoff, cursor_after(first, before));
        folded_reward(anchor, cutoff, first, before) + reward(
            anchor as int,
            principal_after(first, before),
            window.0 as int,
            window.1 as int,
        )
    }
}

/// Deposits add up. After a run of deposits for one account with no
/// unstake in between, the principal of its record is the sum of the amounts
/// and its accumulated reward is the sum of what the calculator gave for
/// each interval between two deposits, cut at the cut-off, on top of what
/// the record held before the run. The staked total has grown by the sum of
/// the amounts.
pub proof fn lemma_deposits_add_up(c: ContractView, account: Seq<char>, run: Seq<Deposit>)
    requires
        c.wf(),
        run.len() > 0,
        deposits_fit(c, account, run),
    ensures
        ({
            let first = c.deposit_base(account, run[0].now);
            let folded = folded_reward(c.stake_start_time, c.stake_end_time, first, run);
            let last = after_deposits(c, account, run);
            &&& last.wf()
            &&& last.stake_start_time == c.stake_start_time
            &&& last.stake_end_time == c.stake_end_time
            &&& 0 <= principal_after(first, run) <= u128::MAX
            &&& 0 <= folded <= u128::MAX
            &&& last.record(account) == Some(
                StakeInfo {
                    amount: principal_after(first, run) as u128,
                    accumulated_reward: folded as u128,
                    first_stake_time: first.first_stake_time,
                    start_time: run.last().now,
                },
            )
            &&& last.total_staked == c.total_staked + principal_after(first, run) - first.amount
        }),
    decreases run.len(),
{
    let first = c.deposit_base(account, run[0].now);
    let before = run.drop_last();
    let held = after_deposits(c, account, before);
    let deposit = run.last();
    if before.len() == 0 {
        assert(held == c);
        assert(run[0] == deposit);
    } else {
        assert(before[0] == run[0]);
        lemma_deposits_add_up(c, account, before);
    }
    let base = held.deposit_base(account, deposit.now);
    assert(base.amount == principal_after(first, before));
    assert(base.accumulated_reward == folded_reward(
        c.stake_start_time,
        c.stake_end_time,
        first,
        before,
    ));
    assert(base.start_time == cursor_after(first, before));
    assert(held.deposit_fits(account, deposit.amount, deposit.now));
    assert(after_deposits(c, account, run) == held.after_deposit(
        account,
        deposit.amount,
        deposit.now,
    ));
    lemma_put(held.stakes, account, held.deposited(account, deposit.amount, deposit.now));
    let window = accrual_window_spec(deposit.now, c.stake_end_time, base.start_time);
    lemma_reward_bounds(
        c.stake_start_time as int,
        base.amount as int,
        window.0 as int,
        window.1 as int,
    );
}

// The reward cap

/// Once the claims have reached the cap, an unstake claims nothing of what
/// was earned since the last deposit, whatever was earned: it pays what the
/// record had accumulated before, or nothing before the lock has run out.
pub proof fn lemma_cap_enforced(c: ContractView, record: StakeInfo, now: u64)
    requires
        c.total_claimed_reward >= c.total_reward,
    ensures
        c.claim(record, now) == 0,
        c.payout_reward(record, now) == (if c.matured(record, now) {
            record.accumulated_reward as int
        } else {
            0
        }),
        c.settlement(record, now).reward_amount == c.payout_reward(record, now),
{
    let window = accrual_window_spec(now, c.stake_end_time, record.start_time);
    lemma_reward_bounds(
        c.stake_start_time as int,
        record.amount as int,
        window.0 as int,
        window.1 as int,
    );
}

/// What an unstake claims never takes the claims above the cap, where they
/// were not above it before, and never exceeds what was earned.
pub proof fn lemma_claim_within_headroom(c: ContractView, record: StakeInfo, now: u64)
    requires
        c.total_claimed_reward <= c.total_reward,
    ensures
        0 <= c.claim(record, now) <= c.earned(record, now),
        c.total_claimed_reward + c.claim(record, now) <= c.total_reward,
{
    let window = accrual_window_spec(now, c.stake_end_time, record.start_time);
    lemma_reward_bounds(
        c.stake_start_time as int,
        record.amount as int,
        window.0 as int,
        window.1 as int,
    );
}

/// A record without reward folded into it cannot take the claims above the
/// cap: where the claims are within the cap, they still are after its
/// unstake has been accepted and settled.
pub proof fn lemma_fresh_claim_keeps_cap(c: ContractView, context: CallContext)
    requires
        c.total_claimed_reward <= c.total_reward,
        c.unstake_error(context) is None,
        c.record(context.predecessor_account_id@).unwrap().accumulated_reward == 0,
    ensures
        ({
            let account = context.predecessor_account_id@;
            let record = c.record(account).unwrap();
            let settlement = c.settlement(record, seconds(context.block_timestamp));
            let last = c.after_unstake(account).after_commit(account, settlement);
            &&& c.total_claimed_reward + settlement.reward_amount <= c.total_reward
            &&& last.total_claimed_reward <= last.total_reward
        }),
{
    let record = c.record(context.predecessor_account_id@).unwrap();
    lemma_claim_within_headroom(c, record, seconds(context.block_timestamp));
}

/// Where the cut-off lies at or before the start of a record's window, or
/// the clock does, the record earns nothing more, and nothing fails for it:
/// a query shows the record as it is stored.
pub proof fn lemma_nothing_earned_past_cutoff(c: ContractView, record: StakeInfo, now: u64)
    requires
        (c.stake_end_time != 0 && c.stake_end_time <= record.start_time) || now
            <= record.start_time,
    ensures
        c.earned_numerator(record, now) == 0,
        c.earned(record, now) == 0,
        c.claim(record, now) == 0,
        c.projection_fits(record, now),
        c.projected(record, now) == record,
{
    let window = accrual_window_spec(now, c.stake_end_time, record.start_time);
    assert(window.1 <= window.0);
    lemma_weight_bounds(c.stake_start_time as int, window.0 as int, window.1 as int);
    lemma_reward_bounds(
        c.stake_start_time as int,
        record.amount as int,
        window.0 as int,
        window.1 as int,
    );
    assert(reward_divisor() == 315_360_000_000);
}

// Early unstake

/// Before the lock has run out, an unstake pays the principal and no
/// reward.
pub proof fn lemma_early_unstake_pays_principal(c: ContractView, record: StakeInfo, now: u64)
    requires
        now <= record.first_stake_time + c.lock_duration,
    ensures
        !c.matured(record, now),
        c.payout(record, now) == record.amount,
        c.settlement(record, now).reward_amount == 0,
        c.settlement(record, now).before_reward_amount == record.accumulated_reward,
{
}

// Rollback

/// A failed transfer undoes the unstake. After an accepted unstake and the
/// settlement of its failed transfer, every account has the record that it
/// had before the unstake - the caller's with the accumulated reward of
/// before, neither zero nor raised by the unstake - and the operation
/// state that it had before, and the counters and the configuration are
/// what they were.
pub proof fn lemma_rollback_restores(c: ContractView, context: CallContext)
    requires
        c.wf(),
        c.unstake_error(context) is None,
    ensures
        ({
            let account = context.predecessor_account_id@;
            let record = c.record(account).unwrap();
            let settlement = c.settlement(record, seconds(context.block_timestamp));
            let last = c.after_unstake(account).after_rollback(account, settlement);
            &&& last.wf()
            &&& last.record(account) == Some(record)
            &&& forall|other: Seq<char>| #[trigger] last.record(other) == c.record(other)
            &&& forall|other: Seq<char>| #[trigger] last.op_state(other) == c.op_state(other)
            &&& last.total_staked == c.total_staked
            &&& last.total_claimed_reward == c.total_claimed_reward
            &&& last == ContractView { stakes: last.stakes, states: last.states, ..c }
        }),
{
    let account = context.predecessor_account_id@;
    let record = c.record(account).unwrap();
    let settlement = c.settlement(record, seconds(context.block_timestamp));
    let held = c.after_unstake(account);
    let last = held.after_rollback(account, settlement);
    lemma_delete(c.stakes, account);
    lemma_put(held.stakes, account, restored_record(settlement));
    assert(restored_record(settlement) == record);
    assert forall|other: Seq<char>| #[trigger] last.record(other) == c.record(other) by {
        if other != account {
            assert(lookup(held.stakes, other) == lookup(c.stakes, other));
        }
    }
}

// The guard

/// While a settlement is pending, the account is guarded. After an accepted
/// unstake, the account is held in `Unstaking` and has no record; a second
/// unstake by it and a deposit for it both fail with a state conflict.
pub proof fn lemma_pending_account_guarded(
    c: ContractView,
    context: CallContext,
    again: CallContext,
    deposit: CallContext,
    amount: u128,
)
    requires
        c.wf(),
        c.unstake_error(context) is None,
        again.predecessor_account_id@ == context.predecessor_account_id@,
        again.attached_deposit == 1,
        deposit.predecessor_account_id@ == c.token_contract,
        !c.stake_paused,
    ensures
        ({
            let account = context.predecessor_account_id@;
            let held = c.after_unstake(account);
            &&& held.op_state(account) is Unstaking
            &&& held.record(account) is None
            &&& held.unstake_error(again) == Some(ContractError::StateConflict)
            &&& held.deposit_error(deposit, account, amount) == Some(ContractError::StateConflict)
        }),
{
    lemma_delete(c.stakes, context.predecessor_account_id@);
}

/// A request for an account that is not idle fails with a state conflict,
/// whatever else holds of the account.
pub proof fn lemma_busy_account_refused(
    c: ContractView,
    account: Seq<char>,
    unstake: CallContext,
    deposit: CallContext,
    amount: u128,
)
    requires
        !(c.op_state(account) is Idle),
        unstake.predecessor_account_id@ == account,
        unstake.attached_deposit == 1,
        deposit.predecessor_account_id@ == c.token_contract,
        !c.stake_paused,
    ensures
        c.unstake_error(unstake) == Some(ContractError::StateConflict),
        c.deposit_error(deposit, account, amount) == Some(ContractError::StateConflict),
        ContractError::StateConflict.kind_spec() is StateConflict,
{
}

/// A request for one account leaves every other account as it is: its
/// record and its operation state are the same after a deposit, an unstake
/// or a settlement of another account.
pub proof fn lemma_requests_are_local(
    c: ContractView,
    account: Seq<char>,
    other: Seq<char>,
    amount: u128,
    now: u64,
    settlement: Settlement,
)
    requires
        c.wf(),
        other != account,
    ensures
        c.after_deposit(account, amount, now).record(other) == c.record(other),
        c.after_deposit(account, amount, now).op_state(other) == c.op_state(other),
        c.after_unstake(account).record(other) == c.record(other),
        c.after_unstake(account).op_state(other) == c.op_state(other),
        c.after_commit(account, settlement).record(other) == c.record(other),
        c.after_commit(account, settlement).op_state(other) == c.op_state(other),
        c.after_rollback(account, settlement).record(other) == c.record(other),
        c.after_rollback(account, settlement).op_state(other) == c.op_state(other),
{
    lemma_put(c.stakes, account, c.deposited(account, amount, now));
    lemma_delete(c.stakes, account);
    lemma_put(c.stakes, account, restored_record(settlement));
}

/// Where the lock has run out and the pool covers what was earned, an
/// unstake pays the reward that a query at the same time shows.
pub proof fn lemma_unstake_pays_projection(c: ContractView, record: StakeInfo, now: u64)
    requires
        c.matured(record, now),
        c.total_claimed_reward + c.earned(record, now) <= c.total_reward,
        c.projection_fits(record, now),
    ensures
        c.payout_reward(record, now) == c.projected(record, now).accumulated_reward,
        c.settlement(record, now).reward_amount == c.projected(record, now).accumulated_reward,
{
    let window = accrual_window_spec(now, c.stake_end_time, record.start_time);
    lemma_reward_bounds(
        c.stake_start_time as int,
        record.amount as int,
        window.0 as int,
        window.1 as int,
    );
}

// The staked total

/// The principal of a record.
pub open spec fn principal() -> spec_fn(StakeInfo) -> int {
    |record: StakeInfo| record.amount as int
}

/// The principal that a settlement holds.
pub open spec fn pending_principal() -> spec_fn(Settlement) -> int {
    |settlement: Settlement| settlement.stake_amount as int
}

/// The principal of all records.
pub open spec fn staked_sum(stakes: Seq<(Seq<char>, StakeInfo)>) -> int {
    total(stakes, principal())
}

/// The principal that all pending settlements hold.
pub open spec fn pending_sum(pending: Seq<(Seq<char>, Settlement)>) -> int {
    total(pending, pending_principal())
}

/// The contract `c` and the settlements `pending` that are on their way
/// agree: the staked total is the principal of all records and of all
/// pending settlements, the accounts with a pending settlement are those in
/// `Unstaking`, they have no record, and no account is left in `Staking`.
pub open spec fn consistent(c: ContractView, pending: Seq<(Seq<char>, Settlement)>) -> bool {
    &&& c.wf()
    &&& keys_distinct(pending)
    &&& c.total_staked == staked_sum(c.stakes) + pending_sum(pending)
    &&& forall|account: Seq<char>|
        #![trigger has_key(pending, account)]
        #![trigger c.op_state(account)]
        has_key(pending, account) <==> c.op_state(account) is Unstaking
    &&& forall|account: Seq<char>| #[trigger]
        has_key(pending, account) ==> c.record(account) is None
    &&& forall|account: Seq<char>| !(#[trigger] c.op_state(account) is Staking)
}

/// A new contract agrees with no settlement pending.
pub proof fn lemma_initial_consistent(
    owner_id: Seq<char>,
    token_contract: Seq<char>,
    total_reward: u128,
    now: u64,
)
    ensures
        consistent(
            ContractView::initial(owner_id, token_contract, total_reward, now),
            Seq::empty(),
        ),
{
}

/// An accepted deposit keeps the agreement, with the same settlements
/// pending.
pub proof fn lemma_deposit_consistent(
    c: ContractView,
    pending: Seq<(Seq<char>, Settlement)>,
    context: CallContext,
    sender: Seq<char>,
    amount: u128,
)
    requires
        consistent(c, pending),
        c.deposit_error(context, sender, amount) is None,
    ensures
        consistent(c.after_deposit(sender, amount, seconds(context.block_timestamp)), pending),
{
    let now = seconds(context.block_timestamp);
    let last = c.after_deposit(sender, amount, now);
    let record = c.deposited(sender, amount, now);
    lemma_put(c.stakes, sender, record);
    lemma_total_put(c.stakes, principal(), sender, record);
    assert forall|account: Seq<char>| #[trigger]
        has_key(pending, account) implies last.record(account) is None by {
        assert(c.op_state(account) is Unstaking);
        assert(account != sender);
        assert(lookup(last.stakes, account) == lookup(c.stakes, account));
    }
    assert forall|account: Seq<char>|
        #![trigger has_key(pending, account)]
        #![trigger last.op_state(account)]
        has_key(pending, account) <==> last.op_state(account) is Unstaking by {
        if account != sender {
            assert(last.op_state(account) == c.op_state(account));
        }
    }
    assert forall|account: Seq<char>| !(#[trigger] last.op_state(account) is Staking) by {
        if account != sender {
            assert(last.op_state(account) == c.op_state(account));
        }
    }
}

/// An accepted unstake keeps the agreement, with its settlement pending
/// from then on.
pub proof fn lemma_unstake_consistent(
    c: ContractView,
    pending: Seq<(Seq<char>, Settlement)>,
    context: CallContext,
)
    requires
        consistent(c, pending),
        c.unstake_error(context) is None,
    ensures
        ({
            let account = context.predecessor_account_id@;
            let record = c.record(account).unwrap();
            let settlement = c.settlement(record, seconds(context.block_timestamp));
            consistent(c.after_unstake(account), put(pending, account, settlement))
        }),
{
    let account = context.predecessor_account_id@;
    let record = c.record(account).unwrap();
    let settlement = c.settlement(record, seconds(context.block_timestamp));
    let last = c.after_unstake(account);
    let held = put(pending, account, settlement);
    lemma_delete(c.stakes, account);
    lemma_total_delete(c.stakes, principal(), account);
    lemma_put(pending, account, settlement);
    lemma_total_put(pending, pending_principal(), account, settlement);
    assert(!has_key(pending, account));
    assert forall|other: Seq<char>|
        #![trigger has_key(held, other)]
        #![trigger last.op_state(other)]
        has_key(held, other) <==> last.op_state(other) is Unstaking by {
        if other != account {
            assert(lookup(held, other) == lookup(pending, other));
            assert(last.op_state(other) == c.op_state(other));
        }
    }
    assert forall|other: Seq<char>| #[trigger] has_key(held, other) implies last.record(other)
        is None by {
        if other != account {
            assert(lookup(held, other) == lookup(pending, other));
            assert(has_key(pending, other));
            assert(lookup(last.stakes, other) == lookup(c.stakes, other));
        }
    }
    assert forall|other: Seq<char>| !(#[trigger] last.op_state(other) is Staking) by {
        if other != account {
            assert(last.op_state(other) == c.op_state(other));
        }
    }
}

/// The staked total covers every pending settlement, and the settlement of
/// a transfer that succeeded keeps the agreement, with that settlement no
/// longer pending.
pub proof fn lemma_commit_consistent(
    c: ContractView,
    pending: Seq<(Seq<char>, Settlement)>,
    account: Seq<char>,
    settlement: Settlement,
)
    requires
        consistent(c, pending),
        lookup(pending, account) == Some(settlement),
    ensures
        settlement.stake_amount <= c.total_staked,
        c.commit_fits(settlement) ==> consistent(
            c.after_commit(account, settlement),
            delete(pending, account),
        ),
{
    lemma_total_delete(pending, pending_principal(), account);
    lemma_delete(pending, account);
    lemma_total_nonnegative(c.stakes);
    lemma_pending_nonnegative(delete(pending, account));
    if c.commit_fits(settlement) {
        let last = c.after_commit(account, settlement);
        let left = delete(pending, account);
        lemma_released(c, pending, last, left, account);
    }
}

/// The settlement of a transfer that failed keeps the agreement, with that
/// settlement no longer pending.
pub proof fn lemma_rollback_consistent(
    c: ContractView,
    pending: Seq<(Seq<char>, Settlement)>,
    account: Seq<char>,
    settlement: Settlement,
)
    requires
        consistent(c, pending),
        lookup(pending, account) == Some(settlement),
    ensures
        consistent(c.after_rollback(account, settlement), delete(pending, account)),
{
    let last = c.after_rollback(account, settlement);
    let left = delete(pending, account);
    lemma_total_delete(pending, pending_principal(), account);
    lemma_delete(pending, account);
    assert(has_key(pending, account));
    assert(c.record(account) is None);
    lemma_put(c.stakes, account, restored_record(settlement));
    lemma_total_put(c.stakes, principal(), account, restored_record(settlement));
    lemma_released(c, pending, last, left, account);
    assert forall|other: Seq<char>| #[trigger] has_key(left, other) implies last.record(other)
        is None by {
        assert(other != account);
        assert(lookup(left, other) == lookup(pending, other));
        assert(has_key(pending, other));
        assert(lookup(last.stakes, other) == lookup(c.stakes, other));
    }
}

/// A request that changes the configuration only keeps the agreement:
/// neither the records, nor the operation states, nor the staked total are
/// the configuration's.
pub proof fn lemma_configuration_consistent(
    c: ContractView,
    configured: ContractView,
    pending: Seq<(Seq<char>, Settlement)>,
)
    requires
        consistent(c, pending),
        configured.stakes == c.stakes,
        configured.states == c.states,
        configured.total_staked == c.total_staked,
    ensures
        consistent(configured, pending),
{
    assert forall|account: Seq<char>|
        #![trigger has_key(pending, account)]
        #![trigger configured.op_state(account)]
        has_key(pending, account) <==> configured.op_state(account) is Unstaking by {
        assert(configured.op_state(account) == c.op_state(account));
    }
    assert forall|account: Seq<char>| #[trigger]
        has_key(pending, account) implies configured.record(account) is None by {
        assert(configured.record(account) == c.record(account));
    }
    assert forall|account: Seq<char>| !(#[trigger] configured.op_state(account) is Staking) by {
        assert(configured.op_state(account) == c.op_state(account));
    }
}

/// The schedule anchor is fixed: no deposit, unstake or settlement moves
/// it, nor any other part of the configuration.
pub proof fn lemma_anchor_is_fixed(
    c: ContractView,
    account: Seq<char>,
    amount: u128,
    now: u64,
    settlement: Settlement,
)
    ensures
        c.after_deposit(account, amount, now).same_configuration(c),
        c.after_unstake(account).same_configuration(c),
        c.after_commit(account, settlement).same_configuration(c),
        c.after_rollback(account, settlement).same_configuration(c),
{
}

// The treasury

/// A withdrawal that is accepted leaves the frozen funds in the balance:
/// what remains covers the staked principal and the part of the reward pool
/// that is not claimed yet.
pub proof fn lemma_withdrawal_keeps_frozen(c: ContractView, balance: u128, amount: u128)
    requires
        0 < amount <= c.withdrawable(balance),
    ensures
        balance - amount >= frozen(
            c.total_staked as int,
            c.total_reward as int,
            c.total_claimed_reward as int,
        ),
        frozen(c.total_staked as int, c.total_reward as int, c.total_claimed_reward as int)
            >= c.total_staked,
{
}

proof fn lemma_released(
    c: ContractView,
    pending: Seq<(Seq<char>, Settlement)>,
    last: ContractView,
    left: Seq<(Seq<char>, Settlement)>,
    account: Seq<char>,
)
    requires
        consistent(c, pending),
        left == delete(pending, account),
        last.states == c.states.insert(account, UserOperationState::Idle),
        keys_distinct(left),
        lookup(left, account) is None,
        forall|other: Seq<char>|
            other != account ==> #[trigger] lookup(left, other) == lookup(pending, other),
        forall|other: Seq<char>|
            other != account ==> #[trigger] lookup(last.stakes, other) == lookup(c.stakes, other),
    ensures
        forall|other: Seq<char>|
            #![trigger has_key(left, other)]
            #![trigger last.op_state(other)]
            has_key(left, other) <==> last.op_state(other) is Unstaking,
        forall|other: Seq<char>| !(#[trigger] last.op_state(other) is Staking),
        forall|other: Seq<char>|
            other != account && #[trigger] has_key(left, other) ==> last.record(other) is None,
{
    assert forall|other: Seq<char>|
        #![trigger has_key(left, other)]
        #![trigger last.op_state(other)]
        has_key(left, other) <==> last.op_state(other) is Unstaking by {
        if other != account {
            assert(lookup(left, other) == lookup(pending, other));
            assert(last.op_state(other) == c.op_state(other));
        }
    }
    assert forall|other: Seq<char>| !(#[trigger] last.op_state(other) is Staking) by {
        if other != account {
            assert(last.op_state(other) == c.op_state(other));
        }
    }
    assert forall|other: Seq<char>| other != account && #[trigger] has_key(
        left,
        other,
    ) implies last.record(other) is None by {
        assert(lookup(left, other) == lookup(pending, other));
        assert(has_key(pending, other));
        assert(lookup(last.stakes, other) == lookup(c.stakes, other));
    }
}

proof fn lemma_total_nonnegative(stakes: Seq<(Seq<char>, StakeInfo)>)
    ensures
        staked_sum(stakes) >= 0,
    decreases stakes.len(),
{
    if stakes.len() > 0 {
        lemma_total_nonnegative(stakes.drop_last());
    }
}

proof fn lemma_pending_nonnegative(pending: Seq<(Seq<char>, Settlement)>)
    ensures
        pending_sum(pending) >= 0,
    decreases pending.len(),
{
    if pending.len() > 0 {
        lemma_pending_nonnegative(pending.drop_last());
    }
}

/// The staked total is never less than the principal of the records.
pub proof fn lemma_total_covers_records(c: ContractView, pending: Seq<(Seq<char>, Settlement)>)
    requires
        consistent(c, pending),
    ensures
        0 <= staked_sum(c.stakes) <= c.total_staked,
        0 <= pending_sum(pending) <= c.total_staked,
        forall|account: Seq<char>| #[trigger]
            share(c.stakes, principal(), account) <= c.total_staked,
{
    lemma_total_nonnegative(c.stakes);
    lemma_pending_nonnegative(pending);
    assert forall|account: Seq<char>| #[trigger]
        share(c.stakes, principal(), account) <= c.total_staked by {
        lemma_total_delete(c.stakes, principal(), account);
        lemma_total_nonnegative(delete(c.stakes, account));
    }
}

} // verus!
