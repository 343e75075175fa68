//! The records that the staking pool keeps.

use crate::decimal::Decimal;
use crate::host::Addr;
use crate::table::Table;
use vstd::prelude::*;

verus! {

/// A segment of the emission schedule: from its start to its end, both in
/// seconds, the amount is released evenly.
pub type Segment = (u64, u64, u128);

/// The token that is staked and the schedule by which rewards are released.
#[derive(Clone, Debug, PartialEq, Eq)]
pub struct Config {
    pub sd_token: Addr,
    pub distribution_schedule: Vec<Segment>,
}

pub struct ConfigView {
    pub sd_token: Seq<char>,
    pub distribution_schedule: Seq<Segment>,
}

impl View for Config {
    type V = ConfigView;

    open spec fn view(&self) -> ConfigView {
        ConfigView {
            sd_token: self.sd_token@,
            distribution_schedule: self.distribution_schedule@,
        }
    }
}

/// The pool as a whole: up to when rewards have been released, how much is
/// bonded, and the rewards released so far for each bonded token.
#[derive(Clone, Copy, Debug, PartialEq, Eq, Structural)]
pub struct State {
    pub last_distributed: u64,
    pub total_bond_amount: u128,
    pub global_reward_index: Decimal,
}

/// One staker: the index up to which rewards are settled, the amount
/// bonded, and the rewards that are settled and wait to be withdrawn.
#[derive(Clone, Copy, Debug, PartialEq, Eq, Structural)]
pub struct StakerInfo {
    pub reward_index: Decimal,
    pub bond_amount: u128,
    pub pending_reward: u128,
}

impl StakerInfo {
    /// The record of one who has bonded nothing yet and has nothing waiting.
    pub fn new() -> (staker_info: StakerInfo)
        ensures
            staker_info == StakerInfo::unbonded(),
    {
        StakerInfo { reward_index: Decimal::zero(), bond_amount: 0, pending_reward: 0 }
    }

    /// The record of one who has bonded nothing yet and has nothing waiting.
    pub open spec fn unbonded() -> StakerInfo {
        StakerInfo { reward_index: Decimal { atomics: 0 }, bond_amount: 0, pending_reward: 0 }
    }
}

impl View for StakerInfo {
    type V = StakerInfo;

    open spec fn view(&self) -> StakerInfo {
        *self
    }
}

/// Everything the staking pool keeps.
#[derive(Debug)]
pub struct Store {
    pub config: Config,
    pub state: State,
    pub staker_info: Table<StakerInfo>,
}

pub struct StoreView {
    pub config: ConfigView,
    pub state: State,
    pub staker_info: Map<Seq<char>, StakerInfo>,
}

impl View for Store {
    type V = StoreView;

    open spec fn view(&self) -> StoreView {
        StoreView { config: self.config@, state: self.state, staker_info: self.staker_info@ }
    }
}

} // verus!
