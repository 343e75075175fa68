//! Reward accounting for a liquid-staking protocol.
//!
//! The collector (`scc`) keeps the registry of strategies and every user's
//! shares and pending airdrops; the investment contracts (`sic_base`,
//! `sic_auto_compound`) hold the staked funds of a strategy; the staking pool
//! (`sd_token_staking`) pays stakers by an emission schedule.
//!
//! Every command is a function from the records that a contract keeps, the
//! caller and the message to the records afterwards and the messages to
//! send on. The records come in a store whose view is a mathematical map,
//! and the contract of each command says, over these views, what the store
//! holds afterwards and what is returned, for every input. A command that
//! fails leaves the store as it was.
//!
//! Amounts are 128-bit integers, and fixed-point numbers count units of
//! 10^-18 in 128 bits (`decimal`). No operation wraps around: what does not
//! fit is reported as `Overflow`, what would go below zero as `Underflow`.
//! Where a product needs 256 bits before it is divided, `cosmwasm_std`
//! computes it.

pub mod balance;
pub mod coin_utils;
pub mod decimal;
pub mod error;
pub mod host;
pub mod scc;
pub mod sd_token_staking;
pub mod sic_auto_compound;
pub mod sic_base;
pub mod table;
