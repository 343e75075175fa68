//! The records that the collector keeps.

use crate::coin_utils::{
    Coin, DecCoin, Holding, clone_coin_vector, clone_dec_coin_vector, coins_holding,
    dec_coins_holding, lemma_empty_holds_nothing,
};
use crate::decimal::{DECIMAL_FRACTIONAL, Decimal, decimal_sum, decimal_summation_in_256};
use crate::error::ContractError;
use crate::host::{Addr, Timestamp};
use crate::table::{Duplicate, Table};
use vstd::prelude::*;

verus! {

/// The collector's own state: who manages it, when it began, and what it has
/// taken in so far.
#[derive(Clone, Debug, PartialEq, Eq)]
pub struct State {
    pub manager: Addr,
    pub scc_denom: String,
    pub contract_genesis_block_height: u64,
    pub contract_genesis_timestamp: Timestamp,
    pub total_accumulated_rewards: u128,
    pub current_rewards_in_scc: u128,
    pub total_accumulated_airdrops: Vec<Coin>,
}

pub struct StateView {
    pub manager: Seq<char>,
    pub scc_denom: Seq<char>,
    pub contract_genesis_block_height: u64,
    pub contract_genesis_timestamp: Timestamp,
    pub total_accumulated_rewards: u128,
    pub current_rewards_in_scc: u128,
    pub total_accumulated_airdrops: Holding,
}

impl View for State {
    type V = StateView;

    open spec fn view(&self) -> StateView {
        StateView {
            manager: self.manager@,
            scc_denom: self.scc_denom@,
            contract_genesis_block_height: self.contract_genesis_block_height,
            contract_genesis_timestamp: self.contract_genesis_timestamp,
            total_accumulated_rewards: self.total_accumulated_rewards,
            current_rewards_in_scc: self.current_rewards_in_scc,
            total_accumulated_airdrops: coins_holding(self.total_accumulated_airdrops@),
        }
    }
}

/// What is known of a registered strategy.
#[derive(Clone, Debug, PartialEq, Eq)]
pub struct StrategyInfo {
    pub name: String,
    pub sic_contract_address: Addr,
    pub unbonding_period: Option<u64>,
    pub supported_airdrops: Vec<String>,
    pub is_active: bool,
}

pub struct StrategyInfoView {
    pub name: Seq<char>,
    pub sic_contract_address: Seq<char>,
    pub unbonding_period: Option<u64>,
    pub supported_airdrops: Seq<Seq<char>>,
    pub is_active: bool,
}

/// The views of a sequence of strings.
pub open spec fn string_views(strings: Seq<String>) -> Seq<Seq<char>> {
    strings.map_values(|s: String| s@)
}

impl View for StrategyInfo {
    type V = StrategyInfoView;

    open spec fn view(&self) -> StrategyInfoView {
        StrategyInfoView {
            name: self.name@,
            sic_contract_address: self.sic_contract_address@,
            unbonding_period: self.unbonding_period,
            supported_airdrops: string_views(self.supported_airdrops@),
            is_active: self.is_active,
        }
    }
}

impl StrategyInfoView {
    /// Whether airdrops are tracked for those invested in the strategy.
    pub open spec fn supports_airdrops(self) -> bool {
        self.supported_airdrops.len() > 0
    }
}

/// The distribution state of a strategy.
#[derive(Clone, Debug, PartialEq, Eq)]
pub struct StrategyMetadata {
    pub name: String,
    pub total_shares: Decimal,
    pub global_airdrop_pointer: Vec<DecCoin>,
    pub total_airdrops_accumulated: Vec<Coin>,
    pub shares_per_token_ratio: Decimal,
    pub current_unprocessed_undelegations: u128,
}

pub struct StrategyMetadataView {
    pub name: Seq<char>,
    pub total_shares: Decimal,
    pub global_airdrop_pointer: Holding,
    pub total_airdrops_accumulated: Holding,
    pub shares_per_token_ratio: Decimal,
    pub current_unprocessed_undelegations: u128,
}

impl View for StrategyMetadata {
    type V = StrategyMetadataView;

    open spec fn view(&self) -> StrategyMetadataView {
        StrategyMetadataView {
            name: self.name@,
            total_shares: self.total_shares,
            global_airdrop_pointer: dec_coins_holding(self.global_airdrop_pointer@),
            total_airdrops_accumulated: coins_holding(self.total_airdrops_accumulated@),
            shares_per_token_ratio: self.shares_per_token_ratio,
            current_unprocessed_undelegations: self.current_unprocessed_undelegations,
        }
    }
}

/// The shares that stand for one token of a strategy that holds
/// `underlying` tokens against `total_shares`: one where it holds nothing,
/// else the shares divided by the tokens, rounded down.
pub open spec fn exchange_rate(total_shares: Decimal, underlying: u128) -> Decimal {
    if underlying == 0 {
        Decimal { atomics: DECIMAL_FRACTIONAL }
    } else {
        Decimal { atomics: total_shares.atomics / underlying }
    }
}

/// The shares minted for `amount` tokens at `rate` shares a token.
pub open spec fn shares_for(rate: Decimal, amount: u128) -> Result<Decimal, ContractError> {
    if rate.atomics * amount > u128::MAX {
        Err(ContractError::Overflow)
    } else {
        Ok(Decimal { atomics: (rate.atomics * amount) as u128 })
    }
}

/// Computes `exchange_rate`.
pub fn compute_exchange_rate(total_shares: Decimal, underlying: u128) -> (rate: Decimal)
    ensures
        rate == exchange_rate(total_shares, underlying),
{
    if underlying == 0 {
        Decimal::one()
    } else {
        Decimal::raw(total_shares.atomics / underlying)
    }
}

/// Computes `shares_for`.
pub fn compute_shares_for(rate: Decimal, amount: u128) -> (minted: Result<Decimal, ContractError>)
    ensures
        minted == shares_for(rate, amount),
{
    match rate.atomics.checked_mul(amount) {
        Some(atomics) => Ok(Decimal::raw(atomics)),
        None => Err(ContractError::Overflow),
    }
}

impl StrategyMetadataView {
    /// The state once the exchange rate has been brought up to date with
    /// what the strategy holds.
    pub open spec fn synced(self, underlying: u128) -> StrategyMetadataView {
        StrategyMetadataView {
            shares_per_token_ratio: exchange_rate(self.total_shares, underlying),
            ..self
        }
    }

    /// The shares that a deposit of `amount` mints at the recorded rate.
    pub open spec fn minted(self, amount: u128) -> Result<Decimal, ContractError> {
        shares_for(self.shares_per_token_ratio, amount)
    }

    /// The state once `amount` has been deposited at the recorded rate.
    pub open spec fn deposited(self, amount: u128) -> Result<StrategyMetadataView, ContractError> {
        match self.minted(amount) {
            Ok(minted) => match decimal_sum(self.total_shares, minted) {
                Ok(total_shares) => Ok(StrategyMetadataView { total_shares, ..self }),
                Err(e) => Err(e),
            },
            Err(e) => Err(e),
        }
    }
}

impl StrategyMetadata {
    /// The distribution state of a strategy that nobody has invested in yet.
    pub fn new(name: String) -> (metadata: StrategyMetadata)
        ensures
            metadata@ == StrategyMetadataView::fresh(name@),
    {
        let metadata = StrategyMetadata {
            name,
            total_shares: Decimal::zero(),
            global_airdrop_pointer: Vec::new(),
            total_airdrops_accumulated: Vec::new(),
            shares_per_token_ratio: Decimal::zero(),
            current_unprocessed_undelegations: 0,
        };
        proof {
            lemma_empty_holds_nothing();
        }
        metadata
    }

    /// Brings the exchange rate up to date with the tokens that the strategy
    /// holds. To be done before shares are minted for a deposit, so that
    /// rewards that came in earlier fall to those who were invested then.
    pub fn sync(&mut self, current_underlying_total: u128)
        ensures
            final(self)@ == old(self)@.synced(current_underlying_total),
    {
        self.shares_per_token_ratio = compute_exchange_rate(
            self.total_shares,
            current_underlying_total,
        );
    }

    /// Mints shares for `amount` tokens at the recorded rate, adds them to
    /// the total and returns them. Fails with `Overflow`, and changes
    /// nothing, when the shares or the new total need more than 128 bits.
    pub fn deposit(&mut self, amount: u128) -> (result: Result<Decimal, ContractError>)
        ensures
            match result {
                Ok(minted) => old(self)@.minted(amount) == Ok::<Decimal, ContractError>(minted)
                    && old(self)@.deposited(amount) == Ok::<StrategyMetadataView, ContractError>(
                    final(self)@,
                ),
                Err(e) => old(self)@.deposited(amount) == Err::<
                    StrategyMetadataView,
                    ContractError,
                >(e) && *final(self) == *old(self),
            },
    {
        let minted = match compute_shares_for(self.shares_per_token_ratio, amount) {
            Ok(minted) => minted,
            Err(e) => {
                return Err(e);
            },
        };
        match decimal_summation_in_256(self.total_shares, minted) {
            Ok(total_shares) => {
                self.total_shares = total_shares;
                Ok(minted)
            },
            Err(e) => Err(e),
        }
    }
}

impl StrategyMetadataView {
    /// The distribution state of a strategy that nobody has invested in yet.
    pub open spec fn fresh(name: Seq<char>) -> StrategyMetadataView {
        StrategyMetadataView {
            name,
            total_shares: Decimal { atomics: 0 },
            global_airdrop_pointer: Holding::nothing(),
            total_airdrops_accumulated: Holding::nothing(),
            shares_per_token_ratio: Decimal { atomics: 0 },
            current_unprocessed_undelegations: 0,
        }
    }
}

/// A user's position in one strategy.
#[derive(Clone, Debug, PartialEq, Eq)]
pub struct UserStrategyInfo {
    pub strategy_name: String,
    pub shares: Decimal,
    pub airdrop_pointer: Vec<DecCoin>,
}

pub struct UserStrategyInfoView {
    pub strategy_name: Seq<char>,
    pub shares: Decimal,
    pub airdrop_pointer: Holding,
}

impl View for UserStrategyInfo {
    type V = UserStrategyInfoView;

    open spec fn view(&self) -> UserStrategyInfoView {
        UserStrategyInfoView {
            strategy_name: self.strategy_name@,
            shares: self.shares,
            airdrop_pointer: dec_coins_holding(self.airdrop_pointer@),
        }
    }
}

impl UserStrategyInfo {
    /// A position without shares, its pointer at the origin.
    pub fn new(strategy_name: String) -> (position: UserStrategyInfo)
        ensures
            position@ == UserStrategyInfoView::opened(strategy_name@, Holding::nothing()),
    {
        let position = UserStrategyInfo {
            strategy_name,
            shares: Decimal::zero(),
            airdrop_pointer: Vec::new(),
        };
        proof {
            lemma_empty_holds_nothing();
        }
        position
    }
}

impl UserStrategyInfoView {
    /// A position without shares whose pointer stands at `pointer`.
    pub open spec fn opened(strategy_name: Seq<char>, pointer: Holding) -> UserStrategyInfoView {
        UserStrategyInfoView {
            strategy_name,
            shares: Decimal { atomics: 0 },
            airdrop_pointer: pointer,
        }
    }
}

/// What a user holds: a position in each strategy invested in, and airdrops
/// that wait to be withdrawn.
#[derive(Clone, Debug, PartialEq, Eq)]
pub struct UserRewardInfo {
    pub strategies: Vec<UserStrategyInfo>,
    pub pending_airdrops: Vec<Coin>,
}

pub struct UserRewardInfoView {
    pub strategies: Seq<UserStrategyInfoView>,
    pub pending_airdrops: Holding,
}

/// The views of a sequence of positions.
pub open spec fn position_views(positions: Seq<UserStrategyInfo>) -> Seq<UserStrategyInfoView> {
    positions.map_values(|p: UserStrategyInfo| p@)
}

impl View for UserRewardInfo {
    type V = UserRewardInfoView;

    open spec fn view(&self) -> UserRewardInfoView {
        UserRewardInfoView {
            strategies: position_views(self.strategies@),
            pending_airdrops: coins_holding(self.pending_airdrops@),
        }
    }
}

impl UserRewardInfoView {
    /// The record of a user who holds nothing.
    pub open spec fn empty() -> UserRewardInfoView {
        UserRewardInfoView {
            strategies: Seq::empty(),
            pending_airdrops: Holding::nothing(),
        }
    }
}

impl UserRewardInfo {
    /// The record of a user who holds nothing.
    pub fn new() -> (record: UserRewardInfo)
        ensures
            record@ == UserRewardInfoView::empty(),
    {
        let record = UserRewardInfo { strategies: Vec::new(), pending_airdrops: Vec::new() };
        assert(position_views(record.strategies@) =~= Seq::<UserStrategyInfoView>::empty());
        proof {
            lemma_empty_holds_nothing();
        }
        record
    }
}

/// Everything the collector keeps: its state, and the records of strategies
/// and users under their keys.
#[derive(Debug)]
pub struct Store {
    pub state: State,
    pub strategy_info_map: Table<StrategyInfo>,
    pub strategy_metadata_map: Table<StrategyMetadata>,
    pub user_reward_info_map: Table<UserRewardInfo>,
}

pub struct StoreView {
    pub state: StateView,
    pub strategy_info_map: Map<Seq<char>, StrategyInfoView>,
    pub strategy_metadata_map: Map<Seq<char>, StrategyMetadataView>,
    pub user_reward_info_map: Map<Seq<char>, UserRewardInfoView>,
}

impl View for Store {
    type V = StoreView;

    open spec fn view(&self) -> StoreView {
        StoreView {
            state: self.state@,
            strategy_info_map: self.strategy_info_map@,
            strategy_metadata_map: self.strategy_metadata_map@,
            user_reward_info_map: self.user_reward_info_map@,
        }
    }
}


/// A copy of a vector of strings.
pub fn clone_strings(strings: &Vec<String>) -> (copy: Vec<String>)
    ensures
        string_views(copy@) == string_views(strings@),
{
    let mut copy: Vec<String> = Vec::new();
    let mut i: usize = 0;
    while i < strings.len()
        invariant
            i <= strings.len(),
            copy.len() == i,
            forall|k: int| 0 <= k < i ==> (#[trigger] copy[k])@ == strings[k]@,
        decreases strings.len() - i,
    {
        copy.push(strings[i].clone());
        i += 1;
    }
    assert(string_views(copy@) =~= string_views(strings@));
    copy
}

impl Duplicate for State {
    fn duplicate(&self) -> (copy: State) {
        State {
            manager: self.manager.clone(),
            scc_denom: self.scc_denom.clone(),
            contract_genesis_block_height: self.contract_genesis_block_height,
            contract_genesis_timestamp: self.contract_genesis_timestamp,
            total_accumulated_rewards: self.total_accumulated_rewards,
            current_rewards_in_scc: self.current_rewards_in_scc,
            total_accumulated_airdrops: clone_coin_vector(&self.total_accumulated_airdrops),
        }
    }
}

impl Duplicate for StrategyInfo {
    fn duplicate(&self) -> (copy: StrategyInfo) {
        StrategyInfo {
            name: self.name.clone(),
            sic_contract_address: self.sic_contract_address.clone(),
            unbonding_period: self.unbonding_period,
            supported_airdrops: clone_strings(&self.supported_airdrops),
            is_active: self.is_active,
        }
    }
}

impl Duplicate for StrategyMetadata {
    fn duplicate(&self) -> (copy: StrategyMetadata) {
        StrategyMetadata {
            name: self.name.clone(),
            total_shares: self.total_shares,
            global_airdrop_pointer: clone_dec_coin_vector(&self.global_airdrop_pointer),
            total_airdrops_accumulated: clone_coin_vector(&self.total_airdrops_accumulated),
            shares_per_token_ratio: self.shares_per_token_ratio,
            current_unprocessed_undelegations: self.current_unprocessed_undelegations,
        }
    }
}

impl Duplicate for UserStrategyInfo {
    fn duplicate(&self) -> (copy: UserStrategyInfo) {
        UserStrategyInfo {
            strategy_name: self.strategy_name.clone(),
            shares: self.shares,
            airdrop_pointer: clone_dec_coin_vector(&self.airdrop_pointer),
        }
    }
}

impl Duplicate for UserRewardInfo {
    fn duplicate(&self) -> (copy: UserRewardInfo) {
        let mut strategies: Vec<UserStrategyInfo> = Vec::new();
        let mut i: usize = 0;
        while i < self.strategies.len()
            invariant
                i <= self.strategies.len(),
                strategies.len() == i,
                forall|k: int| 0 <= k < i ==> (#[trigger] strategies[k])@ == self.strategies[k]@,
            decreases self.strategies.len() - i,
        {
            strategies.push(self.strategies[i].duplicate());
            i += 1;
        }
        assert(position_views(strategies@) =~= position_views(self.strategies@));
        UserRewardInfo { strategies, pending_airdrops: clone_coin_vector(&self.pending_airdrops) }
    }
}

impl Duplicate for Store {
    fn duplicate(&self) -> (copy: Store) {
        Store {
            state: self.state.duplicate(),
            strategy_info_map: self.strategy_info_map.duplicate(),
            strategy_metadata_map: self.strategy_metadata_map.duplicate(),
            user_reward_info_map: self.user_reward_info_map.duplicate(),
        }
    }
}

} // verus!
