use staking::contract::StakingContract;
use staking::schedule::{accrued_reward, WEEK};
use staking::types::{
    CallContext, ContractError, ErrorKind, PromiseError, Settlement, StakeInfo,
    UserOperationState,
};

const TOKEN: &str = "token.testnet";
const OWNER: &str = "owner.testnet";
const CONTRACT: &str = "staking.testnet";
const NANOS: u64 = 1_000_000_000;
const YEAR: u64 = 31_536_000;

fn at(predecessor: &str, attached_deposit: u128, seconds: u64) -> CallContext {
    CallContext {
        current_account_id: CONTRACT.to_string(),
        predecessor_account_id: predecessor.to_string(),
        attached_deposit,
        block_timestamp: seconds * NANOS,
    }
}

fn contract_at(anchor: u64, total_reward: u128) -> StakingContract {
    StakingContract::new(
        &at(OWNER, 0, anchor),
        false,
        OWNER.to_string(),
        TOKEN.to_string(),
        total_reward,
    )
    .unwrap()
}

fn deposit(contract: &mut StakingContract, account: &str, amount: u128, seconds: u64) {
    let unused = contract
        .ft_on_transfer(&at(TOKEN, 0, seconds), account.to_string(), amount, String::new())
        .unwrap();
    assert_eq!(unused, 0);
}

fn record(contract: &StakingContract, account: &str) -> Option<StakeInfo> {
    contract
        .snapshot()
        .staked_balances
        .into_iter()
        .find(|entry| entry.0 == account)
        .map(|entry| entry.1)
}

fn shown(contract: &StakingContract, account: &str, seconds: u64) -> StakeInfo {
    contract
        .get_stake_info(&at(account, 0, seconds), account.to_string())
        .unwrap()
        .unwrap()
}

fn try_deposit(
    contract: &mut StakingContract,
    token: &str,
    account: &str,
    amount: u128,
    seconds: u64,
) -> Result<u128, ContractError> {
    contract.ft_on_transfer(&at(token, 0, seconds), account.to_string(), amount, String::new())
}

fn settle(
    contract: &mut StakingContract,
    account: &str,
    settlement: Settlement,
    call_result: Result<(), PromiseError>,
) -> Result<bool, ContractError> {
    contract.on_ft_transfer_then_remove(
        account.to_string(),
        settlement.stake_amount,
        settlement.reward_amount,
        settlement.first_stake_time,
        settlement.start_time,
        settlement.before_reward_amount,
        call_result,
    )
}

#[test]
fn first_deposit_opens_the_record() {
    let mut contract = contract_at(100, 1_000_000);
    deposit(&mut contract, "alice", 700, 5_000);
    assert_eq!(
        record(&contract, "alice"),
        Some(StakeInfo {
            amount: 700,
            accumulated_reward: 0,
            first_stake_time: 5_000,
            start_time: 5_000
        })
    );
    assert_eq!(contract.get_total_stake(), 700);
    assert_eq!(contract.operation_state(&"alice".to_string()), UserOperationState::Idle);
}

#[test]
fn block_time_is_taken_in_whole_seconds() {
    let mut contract = StakingContract::new(
        &CallContext {
            current_account_id: CONTRACT.to_string(),
            predecessor_account_id: OWNER.to_string(),
            attached_deposit: 0,
            block_timestamp: 7 * NANOS + 999_999_999,
        },
        false,
        OWNER.to_string(),
        TOKEN.to_string(),
        1,
    )
    .unwrap();
    assert_eq!(contract.snapshot().stake_start_time, 7);
    contract
        .ft_on_transfer(
            &CallContext {
                current_account_id: CONTRACT.to_string(),
                predecessor_account_id: TOKEN.to_string(),
                attached_deposit: 0,
                block_timestamp: 9 * NANOS + 1,
            },
            "alice".to_string(),
            5,
            String::new(),
        )
        .unwrap();
    assert_eq!(record(&contract, "alice").unwrap().start_time, 9);
}

#[test]
fn deposits_add_up() {
    let anchor = 100;
    let mut contract = contract_at(anchor, 1_000_000_000);
    let t1 = anchor + WEEK / 2;
    let t2 = anchor + 2 * WEEK;
    let t3 = anchor + 6 * WEEK;
    deposit(&mut contract, "alice", 1_000_000, t1);
    deposit(&mut contract, "alice", 500_000, t2);
    deposit(&mut contract, "alice", 250_000, t3);

    let first = accrued_reward(anchor, 0, t1, t1).unwrap();
    let second = accrued_reward(anchor, 1_000_000, t1, t2).unwrap();
    let third = accrued_reward(anchor, 1_500_000, t2, t3).unwrap();
    assert_eq!((first, second, third), (0, 143_835, 59_835));

    assert_eq!(
        record(&contract, "alice"),
        Some(StakeInfo {
            amount: 1_750_000,
            accumulated_reward: 203_670,
            first_stake_time: t1,
            start_time: t3
        })
    );
    assert_eq!(contract.get_total_stake(), 1_750_000);

    // A query adds what was earned since the last deposit and stores nothing.
    let shown = contract
        .get_stake_info(&at("anyone", 0, anchor + 10 * WEEK), "alice".to_string())
        .unwrap()
        .unwrap();
    assert_eq!(shown.accumulated_reward, 203_670 + 10_739);
    assert_eq!(shown.amount, 1_750_000);
    assert_eq!(shown.start_time, t3);
    assert_eq!(record(&contract, "alice").unwrap().accumulated_reward, 203_670);
}

#[test]
fn deposits_of_two_accounts_do_not_mix() {
    let mut contract = contract_at(0, 1_000_000);
    deposit(&mut contract, "alice", 1_000_000, 0);
    deposit(&mut contract, "bob", 300, WEEK);
    deposit(&mut contract, "alice", 1, WEEK);
    assert_eq!(record(&contract, "bob").unwrap().amount, 300);
    assert_eq!(record(&contract, "bob").unwrap().accumulated_reward, 0);
    assert_eq!(record(&contract, "alice").unwrap().amount, 1_000_001);
    assert_eq!(record(&contract, "alice").unwrap().accumulated_reward, 95_890);
    assert_eq!(contract.get_total_stake(), 1_000_301);
}

#[test]
fn query_is_repeatable() {
    let mut contract = contract_at(0, 1_000_000);
    deposit(&mut contract, "alice", 1_000_000, 0);
    let before = contract.snapshot();
    let context = at("bob", 0, YEAR);
    let first = contract.get_stake_info(&context, "alice".to_string()).unwrap();
    let second = contract.get_stake_info(&context, "alice".to_string()).unwrap();
    assert_eq!(first, second);
    assert_eq!(first.unwrap().accumulated_reward, 302_465);
    assert_eq!(contract.snapshot(), before);
    assert_eq!(contract.get_stake_info(&context, "bob".to_string()), Ok(None));
}

#[test]
fn query_stops_at_the_cutoff() {
    let mut contract = contract_at(0, 1_000_000);
    deposit(&mut contract, "alice", 1_000_000, 0);
    contract.pause_stake(&at(OWNER, 1, 10), true).unwrap();
    contract.set_stake_end_time(&at(OWNER, 1, 10), 3 * WEEK).unwrap();
    assert_eq!(shown(&contract, "alice", YEAR).accumulated_reward, 210_958);
    assert_eq!(shown(&contract, "alice", WEEK).accumulated_reward, 95_890);
}

#[test]
fn deposit_folds_the_reward_up_to_the_cutoff() {
    let mut contract = contract_at(0, 1_000_000);
    deposit(&mut contract, "alice", 1_000_000, 0);
    contract.pause_stake(&at(OWNER, 1, 10), true).unwrap();
    contract.set_stake_end_time(&at(OWNER, 1, 10), 3 * WEEK).unwrap();
    contract.pause_stake(&at(OWNER, 1, 20), false).unwrap();
    deposit(&mut contract, "alice", 1, YEAR);
    assert_eq!(
        record(&contract, "alice"),
        Some(StakeInfo {
            amount: 1_000_001,
            accumulated_reward: 210_958,
            first_stake_time: 0,
            start_time: YEAR
        })
    );
    assert_eq!(shown(&contract, "alice", 2 * YEAR).accumulated_reward, 210_958);
    // With the end time cleared, the record earns again from its last deposit.
    contract.set_stake_end_time(&at(OWNER, 1, YEAR), 0).unwrap();
    assert_eq!(shown(&contract, "alice", 2 * YEAR).accumulated_reward, 210_958 + 80_000);
}

#[test]
fn cutoff_before_the_window_earns_nothing() {
    let mut contract = contract_at(0, 1_000_000);
    deposit(&mut contract, "alice", 1_000_000, 4 * WEEK);
    contract.pause_stake(&at(OWNER, 1, 4 * WEEK), true).unwrap();
    contract.set_stake_end_time(&at(OWNER, 1, 4 * WEEK), WEEK).unwrap();
    assert_eq!(shown(&contract, "alice", YEAR).accumulated_reward, 0);
    let request = contract.unstake(&at("alice", 1, YEAR)).unwrap();
    assert_eq!(request.settlement.reward_amount, 0);
    assert_eq!(request.transfer.amount, 1_000_000);
    assert_eq!(request.settlement.start_time, 4 * WEEK);
}

#[test]
fn unstake_after_the_lock_pays_principal_and_reward() {
    let mut contract = contract_at(0, 1_000_000);
    deposit(&mut contract, "bob", 1_000_000, 0);
    let before = contract.snapshot();
    let request = contract.unstake(&at("bob", 1, YEAR)).unwrap();
    assert_eq!(request.transfer.token_contract, TOKEN);
    assert_eq!(request.transfer.receiver_id, "bob");
    assert_eq!(request.transfer.amount, 1_000_000 + 302_465);
    assert_eq!(
        request.settlement,
        Settlement {
            stake_amount: 1_000_000,
            reward_amount: 302_465,
            first_stake_time: 0,
            start_time: 0,
            before_reward_amount: 0
        }
    );
    // The record is gone at once; the counters wait for the settlement.
    assert_eq!(record(&contract, "bob"), None);
    assert_eq!(contract.get_stake_info(&at("bob", 0, YEAR), "bob".to_string()), Ok(None));
    assert_eq!(contract.operation_state(&"bob".to_string()), UserOperationState::Unstaking);
    assert_eq!(contract.get_total_stake(), before.total_staked);
    assert_eq!(contract.get_total_claimed_reward(), 0);

    assert_eq!(settle(&mut contract, "bob", request.settlement, Ok(())), Ok(true));
    assert_eq!(contract.get_total_stake(), 0);
    assert_eq!(contract.get_total_claimed_reward(), 302_465);
    assert_eq!(contract.operation_state(&"bob".to_string()), UserOperationState::Idle);
    assert_eq!(record(&contract, "bob"), None);
}

#[test]
fn lock_runs_out_only_after_its_last_second() {
    let lock = 2 * WEEK;
    let mut contract = contract_at(0, 1_000_000);
    deposit(&mut contract, "alice", 1_000_000, 1_000);
    deposit(&mut contract, "bob", 1_000_000, 1_000);
    let on_time = contract.unstake(&at("alice", 1, 1_000 + lock)).unwrap();
    assert_eq!(on_time.settlement.reward_amount, 0);
    assert_eq!(on_time.transfer.amount, 1_000_000);
    let late = contract.unstake(&at("bob", 1, 1_000 + lock + 1)).unwrap();
    let earned = accrued_reward(0, 1_000_000, 1_000, 1_000 + lock + 1).unwrap();
    assert!(earned > 0);
    assert_eq!(late.settlement.reward_amount, earned);
    assert_eq!(late.transfer.amount, 1_000_000 + earned);
}

#[test]
fn early_unstake_pays_principal_only() {
    let mut contract = contract_at(0, 1_000_000);
    deposit(&mut contract, "alice", 1_000_000, 0);
    deposit(&mut contract, "alice", 500_000, WEEK);
    let held = record(&contract, "alice").unwrap();
    assert_eq!(held.accumulated_reward, 95_890);

    let request = contract.unstake(&at("alice", 1, WEEK + 10)).unwrap();
    assert_eq!(request.transfer.amount, 1_500_000);
    assert_eq!(request.settlement.reward_amount, 0);
    assert_eq!(request.settlement.before_reward_amount, 95_890);

    // The transfer lands: nothing is claimed.
    assert_eq!(settle(&mut contract, "alice", request.settlement, Ok(())), Ok(true));
    assert_eq!(contract.get_total_claimed_reward(), 0);
    assert_eq!(contract.get_total_stake(), 0);
}

#[test]
fn early_unstake_that_fails_restores_the_reward_of_before() {
    let mut contract = contract_at(0, 1_000_000);
    deposit(&mut contract, "alice", 1_000_000, 0);
    deposit(&mut contract, "alice", 500_000, WEEK);
    let held = record(&contract, "alice").unwrap();

    let request = contract.unstake(&at("alice", 1, WEEK + 3_600)).unwrap();
    assert_eq!(request.settlement.reward_amount, 0);
    assert_eq!(
        settle(&mut contract, "alice", request.settlement, Err(PromiseError::Failed)),
        Ok(false)
    );
    let restored = record(&contract, "alice").unwrap();
    assert_eq!(restored, held);
    assert_eq!(restored.accumulated_reward, 95_890);
    assert_eq!(contract.get_total_stake(), 1_500_000);
    assert_eq!(contract.get_total_claimed_reward(), 0);
}

#[test]
fn failed_transfer_restores_the_contract() {
    let mut contract = contract_at(0, 1_000_000);
    deposit(&mut contract, "alice", 1_000_000, 0);
    deposit(&mut contract, "alice", 1_000_000, 3 * WEEK);
    let before = contract.snapshot();

    let request = contract.unstake(&at("alice", 1, YEAR)).unwrap();
    assert!(request.settlement.reward_amount > request.settlement.before_reward_amount);
    assert_eq!(
        settle(&mut contract, "alice", request.settlement, Err(PromiseError::TooLong(9))),
        Ok(false)
    );
    assert_eq!(contract.snapshot(), before);
    assert_eq!(contract.operation_state(&"alice".to_string()), UserOperationState::Idle);

    // The account may try again, and earns as if nothing had happened.
    let again = contract.unstake(&at("alice", 1, YEAR)).unwrap();
    assert_eq!(again.settlement, request.settlement);
}

#[test]
fn failed_transfer_restores_beside_other_accounts() {
    let mut contract = contract_at(0, 1_000_000);
    deposit(&mut contract, "alice", 10, 0);
    deposit(&mut contract, "bob", 20, 0);
    deposit(&mut contract, "charlie", 30, 0);
    let request = contract.unstake(&at("alice", 1, 50)).unwrap();
    settle(&mut contract, "alice", request.settlement, Err(PromiseError::Failed)).unwrap();
    assert_eq!(record(&contract, "alice").unwrap().amount, 10);
    assert_eq!(record(&contract, "bob").unwrap().amount, 20);
    assert_eq!(record(&contract, "charlie").unwrap().amount, 30);
    assert_eq!(contract.get_total_stake(), 60);
    assert_eq!(contract.snapshot().staked_balances.len(), 3);
}

#[test]
fn pending_account_is_guarded() {
    let mut contract = contract_at(0, 1_000_000);
    deposit(&mut contract, "alice", 1_000_000, 0);
    deposit(&mut contract, "bob", 5, 0);
    let request = contract.unstake(&at("alice", 1, YEAR)).unwrap();
    let pending = contract.snapshot();

    let second = contract.unstake(&at("alice", 1, YEAR + 1));
    assert_eq!(second, Err(ContractError::StateConflict));
    assert_eq!(second.unwrap_err().kind(), ErrorKind::StateConflict);
    assert_eq!(contract.snapshot(), pending);

    let third = try_deposit(&mut contract, TOKEN, "alice", 77, YEAR + 2);
    assert_eq!(third, Err(ContractError::StateConflict));
    assert_eq!(contract.snapshot(), pending);

    // Other accounts are served meanwhile.
    deposit(&mut contract, "bob", 5, YEAR);
    assert_eq!(record(&contract, "bob").unwrap().amount, 10);

    // The settlement still finds what the unstake handed out.
    assert_eq!(settle(&mut contract, "alice", request.settlement, Ok(())), Ok(true));
    assert_eq!(contract.get_total_stake(), 10);
    deposit(&mut contract, "alice", 1, YEAR + 3);
    assert_eq!(record(&contract, "alice").unwrap().first_stake_time, YEAR + 3);
}

#[test]
fn unstake_without_a_record_is_not_found() {
    let mut contract = contract_at(0, 1_000_000);
    deposit(&mut contract, "alice", 1, 0);
    let before = contract.snapshot();
    let result = contract.unstake(&at("bob", 1, 10));
    assert_eq!(result, Err(ContractError::NoStake));
    assert_eq!(ContractError::NoStake.kind(), ErrorKind::NotFound);
    assert_eq!(contract.snapshot(), before);
}

#[test]
fn unstake_needs_one_yocto() {
    let mut contract = contract_at(0, 1_000_000);
    deposit(&mut contract, "alice", 1, 0);
    let before = contract.snapshot();
    assert_eq!(contract.unstake(&at("alice", 0, 10)), Err(ContractError::RequiresOneYocto));
    assert_eq!(contract.unstake(&at("alice", 2, 10)), Err(ContractError::RequiresOneYocto));
    assert_eq!(contract.snapshot(), before);
    assert!(contract.unstake(&at("alice", 1, 10)).is_ok());
}

#[test]
fn cap_cuts_the_claim() {
    let mut contract = contract_at(0, 100);
    deposit(&mut contract, "alice", 1_000_000, 0);
    deposit(&mut contract, "bob", 1_000_000, 0);
    let first = contract.unstake(&at("alice", 1, YEAR)).unwrap();
    assert_eq!(first.settlement.reward_amount, 100);
    assert_eq!(first.transfer.amount, 1_000_100);
    assert_eq!(settle(&mut contract, "alice", first.settlement, Ok(())), Ok(true));
    assert_eq!(contract.get_total_claimed_reward(), 100);

    // The cap is reached: whatever is earned, nothing more is claimed.
    assert_eq!(shown(&contract, "bob", YEAR).accumulated_reward, 302_465);
    let second = contract.unstake(&at("bob", 1, YEAR)).unwrap();
    assert_eq!(second.settlement.reward_amount, 0);
    assert_eq!(second.transfer.amount, 1_000_000);
    assert_eq!(settle(&mut contract, "bob", second.settlement, Ok(())), Ok(true));
    assert_eq!(contract.get_total_claimed_reward(), 100);
    assert_eq!(contract.get_total_stake(), 0);
}

#[test]
fn reward_folded_by_deposits_is_paid_beside_the_claim() {
    let mut contract = contract_at(0, 100);
    deposit(&mut contract, "alice", 1_000_000, 0);
    deposit(&mut contract, "alice", 1, WEEK);
    assert_eq!(record(&contract, "alice").unwrap().accumulated_reward, 95_890);
    let request = contract.unstake(&at("alice", 1, YEAR)).unwrap();
    assert_eq!(request.settlement.before_reward_amount, 95_890);
    assert_eq!(request.settlement.reward_amount, 95_890 + 100);
}

#[test]
fn settlement_that_the_counters_cannot_take_changes_nothing() {
    let mut contract = contract_at(0, 1_000_000);
    deposit(&mut contract, "alice", 10, 0);
    let request = contract.unstake(&at("alice", 1, 5)).unwrap();
    let pending = contract.snapshot();
    let too_much = Settlement { stake_amount: 11, ..request.settlement };
    assert_eq!(settle(&mut contract, "alice", too_much, Ok(())), Err(ContractError::Overflow));
    assert_eq!(contract.snapshot(), pending);
    let too_high = Settlement { reward_amount: u128::MAX, ..request.settlement };
    assert_eq!(settle(&mut contract, "alice", too_high, Ok(())), Ok(true));
    assert_eq!(contract.get_total_claimed_reward(), u128::MAX);

    let mut full = contract_at(0, 1_000_000);
    deposit(&mut full, "alice", 10, 0);
    deposit(&mut full, "bob", 10, 0);
    let one = full.unstake(&at("alice", 1, 5)).unwrap();
    let two = full.unstake(&at("bob", 1, 5)).unwrap();
    let high = Settlement { reward_amount: u128::MAX, ..one.settlement };
    assert_eq!(settle(&mut full, "alice", high, Ok(())), Ok(true));
    let one_more = Settlement { reward_amount: 1, ..two.settlement };
    let held = full.snapshot();
    assert_eq!(settle(&mut full, "bob", one_more, Ok(())), Err(ContractError::Overflow));
    assert_eq!(ContractError::Overflow.kind(), ErrorKind::Overflow);
    assert_eq!(full.snapshot(), held);
    assert_eq!(full.operation_state(&"bob".to_string()), UserOperationState::Unstaking);
}

#[test]
fn deposit_from_another_token_is_refused() {
    let mut contract = contract_at(0, 1_000_000);
    let before = contract.snapshot();
    let result = try_deposit(&mut contract, "other.testnet", "alice", 5, 1);
    assert_eq!(result, Err(ContractError::WrongToken));
    assert_eq!(result.unwrap_err().kind(), ErrorKind::PreconditionViolation);
    assert_eq!(contract.snapshot(), before);
}

#[test]
fn deposit_while_paused_is_refused() {
    let mut contract = contract_at(0, 1_000_000);
    contract.pause_stake(&at(OWNER, 1, 1), true).unwrap();
    let before = contract.snapshot();
    let result = try_deposit(&mut contract, TOKEN, "alice", 5, 1);
    assert_eq!(result, Err(ContractError::StakePaused));
    assert_eq!(contract.snapshot(), before);
    contract.pause_stake(&at(OWNER, 1, 2), false).unwrap();
    deposit(&mut contract, "alice", 5, 3);
}

#[test]
fn deposit_that_does_not_fit_is_refused() {
    let mut contract = contract_at(0, 1_000_000);
    deposit(&mut contract, "alice", u128::MAX, 0);
    let before = contract.snapshot();
    // The principal would not fit.
    let result = try_deposit(&mut contract, TOKEN, "alice", 1, 0);
    assert_eq!(result, Err(ContractError::Overflow));
    // The staked total would not fit.
    let result = try_deposit(&mut contract, TOKEN, "bob", 1, 0);
    assert_eq!(result, Err(ContractError::Overflow));
    // The reward of the record would not fit.
    let result = try_deposit(&mut contract, TOKEN, "alice", 0, 10);
    assert_eq!(result, Err(ContractError::Overflow));
    assert_eq!(contract.snapshot(), before);
    // Neither a query nor an unstake can form it.
    assert_eq!(
        contract.get_stake_info(&at("alice", 0, 10), "alice".to_string()),
        Err(ContractError::Overflow)
    );
    assert_eq!(contract.unstake(&at("alice", 1, 10)), Err(ContractError::Overflow));
    assert_eq!(contract.snapshot(), before);
    // With no time gone by, nothing is earned and the unstake goes through.
    assert_eq!(contract.unstake(&at("alice", 1, 0)).unwrap().transfer.amount, u128::MAX);
}

#[test]
fn deposit_before_the_window_started_earns_nothing() {
    let mut contract = contract_at(0, 1_000_000);
    deposit(&mut contract, "alice", 1_000_000, 1_000);
    deposit(&mut contract, "alice", 1, 900);
    let held = record(&contract, "alice").unwrap();
    assert_eq!(held.accumulated_reward, 0);
    assert_eq!(held.start_time, 900);
    assert_eq!(held.first_stake_time, 1_000);
}

#[test]
fn calculate_reward_uses_the_anchor_of_the_contract() {
    let contract = contract_at(5 * WEEK, 1);
    assert_eq!(contract.calculate_reward(1_000_000, 6 * WEEK, 5 * WEEK), Some(95_890));
    assert_eq!(contract.calculate_reward(1_000_000, 5 * WEEK, 0), Some(0));
    assert_eq!(contract.calculate_reward(u128::MAX, 6 * WEEK, 5 * WEEK), None);
}

#[test]
fn listing_follows_the_order_of_the_ledger() {
    let mut contract = contract_at(0, 1_000_000);
    for (i, name) in ["alice", "bob", "charlie", "danny"].iter().enumerate() {
        deposit(&mut contract, name, 10 + i as u128, 0);
    }
    let names = |listed: Vec<(String, StakeInfo)>| -> Vec<String> {
        listed.into_iter().map(|entry| entry.0).collect()
    };
    assert_eq!(
        names(contract.search_stake_infos(None, None)),
        vec!["alice", "bob", "charlie", "danny"]
    );
    assert_eq!(names(contract.search_stake_infos(Some(1), Some(2))), vec!["bob", "charlie"]);
    assert_eq!(names(contract.search_stake_infos(Some(3), None)), vec!["danny"]);
    assert_eq!(names(contract.search_stake_infos(Some(3), Some(u64::MAX))), vec!["danny"]);
    assert!(contract.search_stake_infos(Some(4), None).is_empty());
    assert!(contract.search_stake_infos(Some(u64::MAX), Some(u64::MAX)).is_empty());
    assert!(contract.search_stake_infos(None, Some(0)).is_empty());
    assert_eq!(contract.search_stake_infos(Some(1), Some(1))[0].1.amount, 11);

    // A deposit keeps the place of a record; an unstake moves the last into the gap.
    deposit(&mut contract, "bob", 1, 5);
    assert_eq!(
        names(contract.search_stake_infos(None, None)),
        vec!["alice", "bob", "charlie", "danny"]
    );
    let request = contract.unstake(&at("alice", 1, 10)).unwrap();
    assert_eq!(names(contract.search_stake_infos(None, None)), vec!["danny", "bob", "charlie"]);
    // A record that comes back is listed last.
    settle(&mut contract, "alice", request.settlement, Err(PromiseError::Failed)).unwrap();
    assert_eq!(
        names(contract.search_stake_infos(None, None)),
        vec!["danny", "bob", "charlie", "alice"]
    );
}

#[test]
fn listing_holds_fifty_records_by_default() {
    let mut contract = contract_at(0, 1_000_000);
    for i in 0..60 {
        deposit(&mut contract, &format!("account{i}"), 1, 0);
    }
    assert_eq!(contract.search_stake_infos(None, None).len(), 50);
    assert_eq!(contract.search_stake_infos(Some(20), None).len(), 40);
    assert_eq!(contract.search_stake_infos(None, Some(60)).len(), 60);
    assert_eq!(contract.search_stake_infos(Some(55), Some(1))[0].0, "account55");
}
