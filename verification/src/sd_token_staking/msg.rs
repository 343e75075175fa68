//! The messages that the staking pool takes and the answers it gives.

use crate::decimal::Decimal;
use crate::host::Addr;
use crate::sd_token_staking::state::Segment;
use vstd::prelude::*;

verus! {

/// The message that sets the pool up.
#[derive(Clone, Debug, PartialEq, Eq)]
pub struct InstantiateMsg {
    pub sd_token: Addr,
    pub distribution_schedule: Vec<Segment>,
}

/// What a transfer of the staked token to the pool is meant for.
#[derive(Clone, Copy, Debug, PartialEq, Eq, Structural)]
pub enum Cw20HookMsg {
    Bond {  },
}

/// The token contract's notice that `sender` has sent `amount` to the pool.
/// `msg` is what the sender attached, as far as it could be read.
#[derive(Clone, Debug, PartialEq, Eq)]
pub struct Cw20ReceiveMsg {
    pub sender: Addr,
    pub amount: u128,
    pub msg: Option<Cw20HookMsg>,
}

pub struct Cw20ReceiveMsgView {
    pub sender: Seq<char>,
    pub amount: u128,
    pub msg: Option<Cw20HookMsg>,
}

impl View for Cw20ReceiveMsg {
    type V = Cw20ReceiveMsgView;

    open spec fn view(&self) -> Cw20ReceiveMsgView {
        Cw20ReceiveMsgView { sender: self.sender@, amount: self.amount, msg: self.msg }
    }
}

/// The commands of the pool.
#[derive(Clone, Debug, PartialEq, Eq)]
pub enum ExecuteMsg {
    Receive(Cw20ReceiveMsg),
    Unbond { amount: u128 },
    /// Withdraws the rewards that wait for the caller.
    Withdraw {  },
    Claim { request_id: u64 },
    UpdateConfig { distribution_schedule: Vec<Segment> },
}

pub enum ExecuteMsgView {
    Receive(Cw20ReceiveMsgView),
    Unbond { amount: u128 },
    Withdraw,
    Claim { request_id: u64 },
    UpdateConfig { distribution_schedule: Seq<Segment> },
}

impl View for ExecuteMsg {
    type V = ExecuteMsgView;

    open spec fn view(&self) -> ExecuteMsgView {
        match self {
            ExecuteMsg::Receive(msg) => ExecuteMsgView::Receive(msg@),
            ExecuteMsg::Unbond { amount } => ExecuteMsgView::Unbond { amount: *amount },
            ExecuteMsg::Withdraw {  } => ExecuteMsgView::Withdraw,
            ExecuteMsg::Claim { request_id } => ExecuteMsgView::Claim { request_id: *request_id },
            ExecuteMsg::UpdateConfig { distribution_schedule } => ExecuteMsgView::UpdateConfig {
                distribution_schedule: distribution_schedule@,
            },
        }
    }
}

/// The message that comes with a migration. It carries nothing.
#[derive(Clone, Copy, Debug, PartialEq, Eq, Structural)]
pub struct MigrateMsg {}

/// The questions that the pool answers. With a `block_time`, in seconds,
/// the answer is as of that time, as if rewards had been released up to it.
#[derive(Clone, Debug, PartialEq, Eq)]
pub enum QueryMsg {
    Config {  },
    State { block_time: Option<u64> },
    StakerInfo { staker: String, block_time: Option<u64> },
}

#[derive(Clone, Debug, PartialEq, Eq)]
pub struct ConfigResponse {
    pub sd_token: Addr,
    pub distribution_schedule: Vec<Segment>,
}

#[derive(Clone, Copy, Debug, PartialEq, Eq, Structural)]
pub struct StateResponse {
    pub last_distributed: u64,
    pub total_bond_amount: u128,
    pub global_reward_index: Decimal,
}

#[derive(Clone, Debug, PartialEq, Eq)]
pub struct StakerInfoResponse {
    pub staker: String,
    pub reward_index: Decimal,
    pub bond_amount: u128,
    pub pending_reward: u128,
}

/// An answer of the pool.
#[derive(Clone, Debug, PartialEq, Eq)]
pub enum QueryResponse {
    Config(ConfigResponse),
    State(StateResponse),
    StakerInfo(StakerInfoResponse),
}

} // verus!
