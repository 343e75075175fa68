//! The records that an investment contract keeps.

use crate::coin_utils::Coin;
use crate::decimal::Decimal;
use crate::host::{Addr, Timestamp};
use vstd::prelude::*;

verus! {

/// The investment contract's own state.
#[derive(Clone, Debug, PartialEq, Eq)]
pub struct State {
    pub manager: Addr,
    pub scc_address: Addr,
    pub vault_denom: String,
    pub contract_genesis_block_height: u64,
    pub contract_genesis_timestamp: Timestamp,
    pub current_undelegation_batch_id: u64,
    /// The chain's unbonding period and a buffer, in seconds.
    pub unbonding_period: u64,
    pub total_rewards_accumulated: u128,
    pub total_rewards_in_sic: u128,
    pub rewards_in_yield: u128,
}

/// One batch of undelegations, kept under the number of its batch.
#[derive(Clone, Debug, PartialEq, Eq)]
pub struct BatchUndelegationRecord {
    pub(crate) amount: Coin,
    pub(crate) unbonding_slashing_ratio: Decimal,
    pub(crate) create_time: Timestamp,
    pub(crate) est_release_time: Timestamp,
    pub(crate) slashing_checked: bool,
}

} // verus!
