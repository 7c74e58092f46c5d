//! A token-staking incentive engine.
//!
//! Accounts deposit a token, earn a reward under a schedule of weekly rates
//! that falls to a flat rate, and withdraw principal and reward through a
//! transfer that may fail and is then undone.
//!
//! - [`schedule`] computes the reward of a principal over an interval.
//! - [`accounting`] cuts claims to the reward pool and keeps the owner's
//!   withdrawals off the frozen funds.
//! - [`account_map`] is the ordered store behind the ledger.
//! - [`types`] holds the plain data of requests and results.
//! - [`model`] says what every request makes of the contract's state.
//! - [`contract`] is the contract itself: every request is a function from
//!   the state and what the host tells about the call to the next state and
//!   the outbound call to make.
//! - [`laws`] proves what holds over runs of several requests.

pub mod account_map;
pub mod accounting;
pub mod contract;
pub mod laws;
pub mod model;
pub mod schedule;
pub mod types;

pub use contract::StakingContract;
pub use types::CallContext;
pub use types::ContractError;
pub use types::StakeInfo;
pub use types::UserOperationState;
