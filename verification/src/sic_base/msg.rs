//! The messages that an investment contract takes and the answers it gives.

use crate::host::Addr;
use crate::sic_base::state::{BatchUndelegationRecord, State};
use vstd::prelude::*;

verus! {

/// The message that sets an investment contract up.
#[derive(Clone, Debug, PartialEq, Eq)]
pub struct InstantiateMsg {
    pub scc_address: Addr,
    /// The denomination of the staking coin.
    pub strategy_denom: String,
    /// The unbonding period in seconds, where it is not the default.
    pub unbonding_period: Option<u64>,
}

/// The commands of an investment contract.
#[derive(Clone, Debug, PartialEq, Eq)]
pub enum ExecuteMsg {
    /// Sent by the collector with the rewards attached.
    TransferRewards {  },
    /// Sent by the collector to undelegate `amount` from the strategy.
    UndelegateRewards { amount: u128 },
    /// Sent by the collector to pay out after the unbonding period.
    WithdrawRewards { user: Addr, amount: u128, undelegation_batch_id: u64 },
    /// Sent by the collector to claim an airdrop and pass it on.
    ClaimAirdrops {
        airdrop_token_contract: Addr,
        cw20_token_contract: Addr,
        airdrop_token: String,
        amount: u128,
        claim_msg: Vec<u8>,
    },
}

/// The questions that an investment contract answers.
#[derive(Clone, Debug, PartialEq, Eq)]
pub enum QueryMsg {
    GetTotalTokens {  },
    GetCurrentUndelegationBatchId {  },
    GetUndelegationBatchInfo { undelegation_batch_id: u64 },
    GetState {  },
}

#[derive(Clone, Debug, PartialEq, Eq)]
pub struct GetStateResponse {
    pub state: Option<State>,
}

/// The tokens that the contract holds for its strategy, if it can tell.
#[derive(Clone, Copy, Debug, PartialEq, Eq, Structural)]
pub struct GetTotalTokensResponse {
    pub total_tokens: Option<u128>,
}

impl View for GetTotalTokensResponse {
    type V = Option<u128>;

    open spec fn view(&self) -> Option<u128> {
        self.total_tokens
    }
}

#[derive(Clone, Copy, Debug, PartialEq, Eq, Structural)]
pub struct GetCurrentUndelegationBatchIdResponse {
    pub current_undelegation_batch_id: u64,
}

#[derive(Clone, Debug, PartialEq, Eq)]
pub struct GetUndelegationBatchInfoResponse {
    pub undelegation_batch_info: Option<BatchUndelegationRecord>,
}

} // verus!
