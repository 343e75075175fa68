//! The messages that the collector takes and the answers it gives.

use crate::balance::Balance;
use crate::coin_utils::{Coin, coins_balance};
use crate::host::{Addr, Timestamp};
use crate::scc::state::{State, string_views};
use vstd::prelude::*;

verus! {

/// The message that sets the collector up.
#[derive(Clone, Debug, PartialEq, Eq)]
pub struct InstantiateMsg {
    pub strategy_denom: String,
}

/// Rewards of one user to be put into one strategy.
#[derive(Clone, Debug, PartialEq, Eq)]
pub struct UpdateUserRewardsRequest {
    pub user: Addr,
    pub strategy_id: String,
    pub rewards: u128,
}

pub struct UpdateUserRewardsRequestView {
    pub user: Seq<char>,
    pub strategy_id: Seq<char>,
    pub rewards: u128,
}

impl View for UpdateUserRewardsRequest {
    type V = UpdateUserRewardsRequestView;

    open spec fn view(&self) -> UpdateUserRewardsRequestView {
        UpdateUserRewardsRequestView {
            user: self.user@,
            strategy_id: self.strategy_id@,
            rewards: self.rewards,
        }
    }
}

/// Airdrops that fell to one user.
#[derive(Clone, Debug, PartialEq, Eq)]
pub struct UpdateUserAirdropsRequest {
    pub user: Addr,
    pub pool_airdrops: Vec<Coin>,
}

pub struct UpdateUserAirdropsRequestView {
    pub user: Seq<char>,
    pub pool_airdrops: Balance,
}

impl View for UpdateUserAirdropsRequest {
    type V = UpdateUserAirdropsRequestView;

    open spec fn view(&self) -> UpdateUserAirdropsRequestView {
        UpdateUserAirdropsRequestView {
            user: self.user@,
            pool_airdrops: coins_balance(self.pool_airdrops@),
        }
    }
}

/// The views of a sequence of reward requests.
pub open spec fn rewards_request_views(requests: Seq<UpdateUserRewardsRequest>) -> Seq<
    UpdateUserRewardsRequestView,
> {
    requests.map_values(|r: UpdateUserRewardsRequest| r@)
}

/// The views of a sequence of airdrop requests.
pub open spec fn airdrops_request_views(requests: Seq<UpdateUserAirdropsRequest>) -> Seq<
    UpdateUserAirdropsRequestView,
> {
    requests.map_values(|r: UpdateUserAirdropsRequest| r@)
}

/// The commands of the collector.
#[derive(Clone, Debug, PartialEq, Eq)]
pub enum ExecuteMsg {
    RegisterStrategy {
        strategy_id: String,
        unbonding_period: Option<u64>,
        sic_contract_address: Addr,
        supported_airdrops: Vec<String>,
    },
    DeactivateStrategy { strategy_id: String },
    ActivateStrategy { strategy_id: String },
    RemoveStrategy { strategy_id: String },
    UpdateUserRewards { update_user_rewards_requests: Vec<UpdateUserRewardsRequest> },
    UpdateUserAirdrops { update_user_airdrops_requests: Vec<UpdateUserAirdropsRequest> },
    UndelegateRewards { amount: u128, strategy_id: String },
    ClaimAirdrops { strategy_id: String },
    WithdrawRewards { undelegation_timestamp: Timestamp, strategy_id: String },
    WithdrawAirdrops {  },
}

pub enum ExecuteMsgView {
    RegisterStrategy {
        strategy_id: Seq<char>,
        unbonding_period: Option<u64>,
        sic_contract_address: Seq<char>,
        supported_airdrops: Seq<Seq<char>>,
    },
    DeactivateStrategy { strategy_id: Seq<char> },
    ActivateStrategy { strategy_id: Seq<char> },
    RemoveStrategy { strategy_id: Seq<char> },
    UpdateUserRewards { update_user_rewards_requests: Seq<UpdateUserRewardsRequestView> },
    UpdateUserAirdrops { update_user_airdrops_requests: Seq<UpdateUserAirdropsRequestView> },
    UndelegateRewards { amount: u128, strategy_id: Seq<char> },
    ClaimAirdrops { strategy_id: Seq<char> },
    WithdrawRewards { undelegation_timestamp: Timestamp, strategy_id: Seq<char> },
    WithdrawAirdrops,
}

impl View for ExecuteMsg {
    type V = ExecuteMsgView;

    open spec fn view(&self) -> ExecuteMsgView {
        match self {
            ExecuteMsg::RegisterStrategy {
                strategy_id,
                unbonding_period,
                sic_contract_address,
                supported_airdrops,
            } => ExecuteMsgView::RegisterStrategy {
                strategy_id: strategy_id@,
                unbonding_period: *unbonding_period,
                sic_contract_address: sic_contract_address@,
                supported_airdrops: string_views(supported_airdrops@),
            },
            ExecuteMsg::DeactivateStrategy { strategy_id } => ExecuteMsgView::DeactivateStrategy {
                strategy_id: strategy_id@,
            },
            ExecuteMsg::ActivateStrategy { strategy_id } => ExecuteMsgView::ActivateStrategy {
                strategy_id: strategy_id@,
            },
            ExecuteMsg::RemoveStrategy { strategy_id } => ExecuteMsgView::RemoveStrategy {
                strategy_id: strategy_id@,
            },
            ExecuteMsg::UpdateUserRewards {
                update_user_rewards_requests,
            } => ExecuteMsgView::UpdateUserRewards {
                update_user_rewards_requests: rewards_request_views(update_user_rewards_requests@),
            },
            ExecuteMsg::UpdateUserAirdrops {
                update_user_airdrops_requests,
            } => ExecuteMsgView::UpdateUserAirdrops {
                update_user_airdrops_requests: airdrops_request_views(
                    update_user_airdrops_requests@,
                ),
            },
            ExecuteMsg::UndelegateRewards { amount, strategy_id } => ExecuteMsgView::UndelegateRewards {
                amount: *amount,
                strategy_id: strategy_id@,
            },
            ExecuteMsg::ClaimAirdrops { strategy_id } => ExecuteMsgView::ClaimAirdrops {
                strategy_id: strategy_id@,
            },
            ExecuteMsg::WithdrawRewards {
                undelegation_timestamp,
                strategy_id,
            } => ExecuteMsgView::WithdrawRewards {
                undelegation_timestamp: *undelegation_timestamp,
                strategy_id: strategy_id@,
            },
            ExecuteMsg::WithdrawAirdrops {  } => ExecuteMsgView::WithdrawAirdrops,
        }
    }
}

impl ExecuteMsgView {
    /// Whether the command is one that only the manager may give. The others
    /// have no behaviour yet, whoever gives them.
    pub open spec fn is_managed(self) -> bool {
        match self {
            ExecuteMsgView::RegisterStrategy { .. } => true,
            ExecuteMsgView::DeactivateStrategy { .. } => true,
            ExecuteMsgView::ActivateStrategy { .. } => true,
            ExecuteMsgView::RemoveStrategy { .. } => true,
            ExecuteMsgView::UpdateUserRewards { .. } => true,
            ExecuteMsgView::UpdateUserAirdrops { .. } => true,
            _ => false,
        }
    }
}

/// The questions that the collector answers.
#[derive(Clone, Debug, PartialEq, Eq)]
pub enum QueryMsg {
    GetState {  },
}

/// The answer to `QueryMsg::GetState`.
#[derive(Clone, Debug, PartialEq, Eq)]
pub struct StateResponse {
    pub state: Option<State>,
}

} // verus!
