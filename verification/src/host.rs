//! What a contract sees of its host, and what it hands back: the block it
//! runs in, the caller, and the messages it asks the host to send on.

use crate::coin_utils::Coin;
use vstd::prelude::*;

verus! {

/// An address on the chain.
pub type Addr = String;

/// A point in time, in nanoseconds since the epoch.
#[derive(Clone, Copy, Debug, PartialEq, Eq, Structural)]
pub struct Timestamp {
    pub nanos: u64,
}

impl Timestamp {
    pub fn from_nanos(nanos: u64) -> (time: Timestamp)
        ensures
            time.nanos == nanos,
    {
        Timestamp { nanos }
    }

    /// The whole seconds since the epoch.
    pub fn seconds(&self) -> (seconds: u64)
        ensures
            seconds == self.nanos / 1_000_000_000,
    {
        self.nanos / 1_000_000_000
    }
}

/// The block in which a call runs.
#[derive(Clone, Copy, Debug, PartialEq, Eq, Structural)]
pub struct BlockInfo {
    pub height: u64,
    pub time: Timestamp,
}

/// The surroundings of a call.
#[derive(Clone, Copy, Debug, PartialEq, Eq, Structural)]
pub struct Env {
    pub block: BlockInfo,
}

/// Who calls, and with which funds.
#[derive(Clone, Debug, PartialEq, Eq)]
pub struct MessageInfo {
    pub sender: Addr,
    pub funds: Vec<Coin>,
}

/// A message to another contract that the host is asked to send once the
/// call has returned.
#[derive(Clone, Debug, PartialEq, Eq)]
pub enum CosmosMsg {
    /// Hands `funds` to an investment contract as rewards.
    TransferRewards { contract_addr: Addr, funds: Coin },
    /// Has a token contract transfer `amount` of its token to `recipient`.
    TokenTransfer { contract_addr: Addr, recipient: Addr, amount: u128 },
}

pub enum CosmosMsgView {
    TransferRewards { contract_addr: Seq<char>, funds: (Seq<char>, nat) },
    TokenTransfer { contract_addr: Seq<char>, recipient: Seq<char>, amount: u128 },
}

impl View for CosmosMsg {
    type V = CosmosMsgView;

    open spec fn view(&self) -> CosmosMsgView {
        match self {
            CosmosMsg::TransferRewards { contract_addr, funds } => CosmosMsgView::TransferRewards {
                contract_addr: contract_addr@,
                funds: funds@,
            },
            CosmosMsg::TokenTransfer {
                contract_addr,
                recipient,
                amount,
            } => CosmosMsgView::TokenTransfer {
                contract_addr: contract_addr@,
                recipient: recipient@,
                amount: *amount,
            },
        }
    }
}

/// What a successful call hands back to the host.
#[derive(Clone, Debug, PartialEq, Eq)]
pub struct Response {
    pub messages: Vec<CosmosMsg>,
}

/// The views of a sequence of messages.
pub open spec fn message_views(messages: Seq<CosmosMsg>) -> Seq<CosmosMsgView> {
    messages.map_values(|m: CosmosMsg| m@)
}

impl View for Response {
    type V = Seq<CosmosMsgView>;

    /// The messages, in their order.
    open spec fn view(&self) -> Seq<CosmosMsgView> {
        message_views(self.messages@)
    }
}

impl Response {
    /// A response without messages.
    pub fn new() -> (response: Response)
        ensures
            response@ == Seq::<CosmosMsgView>::empty(),
    {
        let response = Response { messages: Vec::new() };
        assert(response@ =~= Seq::<CosmosMsgView>::empty());
        response
    }
}

impl MessageInfo {
    pub fn new(sender: &str, funds: Vec<Coin>) -> (info: MessageInfo)
        ensures
            info.sender@ == sender@,
            info.funds == funds,
    {
        MessageInfo { sender: sender.to_owned(), funds }
    }
}

} // verus!
