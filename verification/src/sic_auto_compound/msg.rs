//! The messages that the auto-compounding investment contract takes and the
//! answers it gives.

use crate::host::Addr;
use vstd::prelude::*;

verus! {

/// The message that sets the contract up.
#[derive(Clone, Debug, PartialEq, Eq)]
pub struct InstantiateMsg {
    pub scc_address: Addr,
    /// The denomination of the staking coin.
    pub vault_denom: String,
    /// The validators that make up the pool at the start.
    pub initial_validators: Vec<Addr>,
}

/// The commands of the contract.
#[derive(Clone, Debug, PartialEq, Eq)]
pub enum ExecuteMsg {
    TransferRewards {  },
    UndelegateRewards { amount: u128 },
    TransferUndelegatedRewards { amount: u128 },
    Swap {  },
    Reinvest {  },
    RedeemRewards {  },
    /// Sent by the manager to claim an airdrop and pass it on to the collector.
    ClaimAirdrops {
        airdrop_token_contract: Addr,
        cw20_token_contract: Addr,
        airdrop_token: String,
        amount: u128,
        claim_msg: Vec<u8>,
    },
}

/// The questions that the contract answers.
#[derive(Clone, Debug, PartialEq, Eq)]
pub enum QueryMsg {
    GetTotalTokens {  },
    GetState {  },
    GetUndelegatedFunds { amount: u128 },
}

#[derive(Clone, Copy, Debug, PartialEq, Eq, Structural)]
pub struct GetTotalTokensResponse {
    pub total_tokens: Option<u128>,
}

#[derive(Clone, Copy, Debug, PartialEq, Eq, Structural)]
pub struct GetUndelegatedFunds {
    pub undelegated_funds: Option<u128>,
}

} // verus!
