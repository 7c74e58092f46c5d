//! Plain data exchanged with the staking engine.

use vstd::prelude::*;

verus! {

/// The stake record of one account.
#[derive(Clone, Copy, Debug, PartialEq, Eq, Structural)]
pub struct StakeInfo {
    /// Principal currently staked.
    pub amount: u128,
    /// Reward earned up to `start_time`.
    pub accumulated_reward: u128,
    /// Time of the account's first deposit, in seconds.
    pub first_stake_time: u64,
    /// Start of the current accrual window, in seconds.
    pub start_time: u64,
}

/// How a request failed. A failed request leaves the contract as it was.
#[derive(Clone, Copy, Debug, PartialEq, Eq, Structural)]
pub enum ContractError {
    /// The contract's state exists already.
    AlreadyInitialized,
    /// The reward cap must be positive.
    ZeroTotalReward,
    /// The reward cap is above `MAX_TOTAL_REWARD`.
    TotalRewardTooLarge,
    /// The request needs an attached deposit of exactly one unit.
    RequiresOneYocto,
    /// Only the owner may make this request.
    NotOwner,
    /// The lock duration is above `MAX_LOCK_DURATION`.
    LockDurationTooLong,
    /// The new owner's identifier is empty.
    EmptyOwner,
    /// An end time is set while staking is paused, and cleared while it runs.
    EndTimeWrongPhase,
    /// The deposit was not announced by the configured token ledger.
    WrongToken,
    /// Staking is paused.
    StakePaused,
    /// The request needs staking to be paused.
    StakeNotPaused,
    /// The amount is above what the owner may withdraw.
    InsufficientBalance,
    /// No contract code came with the upgrade request.
    NoInput,
    /// No stored state was found to migrate.
    StateReadFailed,
    /// The account has an operation in flight.
    StateConflict,
    /// The account has no stake record.
    NoStake,
    /// The balance query did not return a balance.
    BalanceQueryFailed,
    /// A sum or product does not fit in 128 bits.
    Overflow,
}

/// The classes of failure.
#[derive(Clone, Copy, Debug, PartialEq, Eq, Structural)]
pub enum ErrorKind {
    PreconditionViolation,
    StateConflict,
    NotFound,
    ExternalCallFailure,
    Overflow,
}

impl ContractError {
    /// The class of this failure.
    pub open spec fn kind_spec(self) -> ErrorKind {
        match self {
            ContractError::StateConflict => ErrorKind::StateConflict,
            ContractError::NoStake => ErrorKind::NotFound,
            ContractError::BalanceQueryFailed => ErrorKind::ExternalCallFailure,
            ContractError::Overflow => ErrorKind::Overflow,
            _ => ErrorKind::PreconditionViolation,
        }
    }

    #[verifier::when_used_as_spec(kind_spec)]
    pub fn kind(self) -> (kind: ErrorKind)
        ensures
            kind == self.kind_spec(),
    {
        match self {
            ContractError::StateConflict => ErrorKind::StateConflict,
            ContractError::NoStake => ErrorKind::NotFound,
            ContractError::BalanceQueryFailed => ErrorKind::ExternalCallFailure,
            ContractError::Overflow => ErrorKind::Overflow,
            _ => ErrorKind::PreconditionViolation,
        }
    }
}

/// The per-account guard against overlapping requests. An account without
/// a stored state is idle.
#[derive(Clone, Copy, Debug, PartialEq, Eq, Structural)]
pub enum UserOperationState {
    Idle,
    Staking,
    Unstaking,
}

impl UserOperationState {
    /// Takes the guard for a deposit: only an idle account may start one.
    pub fn begin_staking(self) -> (next: Result<UserOperationState, ContractError>)
        ensures
            next == (if self is Idle {
                Ok::<UserOperationState, ContractError>(UserOperationState::Staking)
            } else {
                Err(ContractError::StateConflict)
            }),
    {
        match self {
            UserOperationState::Idle => Ok(UserOperationState::Staking),
            _ => Err(ContractError::StateConflict),
        }
    }

    /// Takes the guard for an unstake: only an idle account may start one.
    pub fn begin_unstaking(self) -> (next: Result<UserOperationState, ContractError>)
        ensures
            next == (if self is Idle {
                Ok::<UserOperationState, ContractError>(UserOperationState::Unstaking)
            } else {
                Err(ContractError::StateConflict)
            }),
    {
        match self {
            UserOperationState::Idle => Ok(UserOperationState::Unstaking),
            _ => Err(ContractError::StateConflict),
        }
    }

    /// Releases the guard: whatever was in flight, the account is idle again.
    pub fn finish(self) -> (next: UserOperationState)
        ensures
            next is Idle,
    {
        UserOperationState::Idle
    }
}

/// Why an outbound call did not deliver a result.
#[derive(Clone, Copy, Debug, PartialEq, Eq, Structural)]
pub enum PromiseError {
    /// The call failed.
    Failed,
    /// The call succeeded with a result of this many bytes, too long to read.
    TooLong(usize),
}

/// What the host tells about the request being served.
#[derive(Clone, Debug, PartialEq, Eq)]
pub struct CallContext {
    /// The account of the contract itself.
    pub current_account_id: String,
    /// The account that made the request.
    pub predecessor_account_id: String,
    /// The deposit attached to the request, in the host's smallest unit.
    pub attached_deposit: u128,
    /// The time of the block, in nanoseconds.
    pub block_timestamp: u64,
}

/// What a pending unstake carries to its settlement: the values that
/// complete it or undo it, taken when the transfer was requested.
#[derive(Clone, Copy, Debug, PartialEq, Eq, Structural)]
pub struct Settlement {
    /// Principal of the removed record.
    pub stake_amount: u128,
    /// Reward that the transfer pays out.
    pub reward_amount: u128,
    /// `first_stake_time` of the removed record.
    pub first_stake_time: u64,
    /// `start_time` of the removed record.
    pub start_time: u64,
    /// Accumulated reward of the record before this unstake added to it.
    pub before_reward_amount: u128,
}

/// An outbound transfer of `amount` on the token ledger to `receiver_id`.
#[derive(Clone, Debug, PartialEq, Eq)]
pub struct TransferRequest {
    pub token_contract: String,
    pub receiver_id: String,
    pub amount: u128,
}

/// The transfer that an accepted unstake asks for, with its settlement.
#[derive(Clone, Debug, PartialEq, Eq)]
pub struct UnstakeRequest {
    pub transfer: TransferRequest,
    pub settlement: Settlement,
}

/// The balance query that an accepted withdrawal asks for: the balance of
/// `account_id` on the token ledger. Its answer goes to
/// `on_check_balance_then_withdraw` together with the other values.
#[derive(Clone, Debug, PartialEq, Eq)]
pub struct WithdrawRequest {
    pub token_contract: String,
    /// The account whose balance is asked for: the contract's own.
    pub account_id: String,
    /// Who is to receive the withdrawal.
    pub to: String,
    pub amount: u128,
}

/// All that a contract holds, as plain values: what is written to storage
/// and read back from it.
#[derive(Clone, Debug, PartialEq, Eq)]
pub struct ContractState {
    pub owner_id: String,
    pub token_contract: String,
    /// The stake records, in listing order.
    pub staked_balances: Vec<(String, StakeInfo)>,
    /// The stored operation states.
    pub user_states: Vec<(String, UserOperationState)>,
    pub stake_start_time: u64,
    pub lock_duration: u64,
    pub stake_paused: bool,
    pub stake_end_time: u64,
    pub total_staked: u128,
    pub total_claimed_reward: u128,
    pub total_reward: u128,
}

/// The deployment that an accepted upgrade asks for.
#[derive(Clone, Debug, PartialEq, Eq)]
pub struct UpgradeRequest {
    /// The account to deploy on: the contract's own.
    pub account_id: String,
    /// The new contract code.
    pub code: Vec<u8>,
    /// The state version that the migration hook is told.
    pub from_version: u32,
    /// The gas left for the migration hook.
    pub migrate_gas: u64,
}

} // verus!
