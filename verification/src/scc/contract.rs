//! The collector's commands and questions.

use crate::balance::{amount_in, balance_covers};
use crate::coin_utils::{
    Coin, CoinVecOp, Holding, Operation, clone_coin_vector, clone_dec_coin_vector,
    lemma_empty_holds_nothing, merge_coin_vector, merged,
};
use crate::decimal::{Decimal, decimal_sum, decimal_summation_in_256};
use crate::error::{ContractError, Record};
use crate::host::{
    Addr, CosmosMsg, CosmosMsgView, Env, MessageInfo, Response, Timestamp, message_views,
};
use crate::scc::helpers::{
    find_user_strategy, first_at, get_sic_total_tokens, held_shares, lemma_first_at_exists,
    lemma_first_at_unique, position_of, sic_total_tokens, strategy_supports_airdrops,
};
use crate::scc::msg::{
    ExecuteMsg, ExecuteMsgView, InstantiateMsg, QueryMsg, StateResponse, UpdateUserAirdropsRequest,
    UpdateUserAirdropsRequestView, UpdateUserRewardsRequest, UpdateUserRewardsRequestView,
    airdrops_request_views, rewards_request_views,
};
use crate::scc::state::{
    State, StateView, Store, StoreView, StrategyInfo, StrategyInfoView, StrategyMetadata,
    StrategyMetadataView, UserRewardInfo, UserRewardInfoView, UserStrategyInfo,
    UserStrategyInfoView, exchange_rate, position_views, string_views,
};
use crate::sic_base::msg::GetTotalTokensResponse;
use crate::table::{Duplicate, Table};
use vstd::prelude::*;

verus! {

/// Why a request of a batch was passed over.
#[derive(Clone, Copy, Debug, PartialEq, Eq, Structural)]
pub enum SkipReason {
    /// No strategy is registered under the identifier.
    StrategyInfoMissing,
    /// No distribution state is kept under the identifier.
    StrategyMetadataMissing,
}

/// What became of one request of a batch of rewards.
#[derive(Clone, Debug, PartialEq, Eq)]
pub enum RewardOutcome {
    /// The rewards were booked; the message hands them to the strategy.
    Applied(CosmosMsg),
    /// Nothing was changed.
    Skipped(SkipReason),
}

pub enum RewardOutcomeView {
    Applied(CosmosMsgView),
    Skipped(SkipReason),
}

impl View for RewardOutcome {
    type V = RewardOutcomeView;

    open spec fn view(&self) -> RewardOutcomeView {
        match self {
            RewardOutcome::Applied(message) => RewardOutcomeView::Applied(message@),
            RewardOutcome::Skipped(reason) => RewardOutcomeView::Skipped(*reason),
        }
    }
}

/// The record kept for `user`: that of one who holds nothing where none is kept.
pub open spec fn user_record(store: StoreView, user: Seq<char>) -> UserRewardInfoView {
    if store.user_reward_info_map.dom().contains(user) {
        store.user_reward_info_map[user]
    } else {
        UserRewardInfoView::empty()
    }
}

/// The user's record with `shares` in `strategy`: in the position that is
/// there, or in a new one at the end whose pointer stands at `opened_pointer`.
pub open spec fn with_shares(
    user: UserRewardInfoView,
    strategy: Seq<char>,
    opened_pointer: Holding,
    shares: Decimal,
) -> UserRewardInfoView {
    match position_of(user.strategies, strategy) {
        Some(i) => UserRewardInfoView {
            strategies: user.strategies.update(
                i,
                UserStrategyInfoView { shares, ..user.strategies[i] },
            ),
            ..user
        },
        None => UserRewardInfoView {
            strategies: user.strategies.push(
                UserStrategyInfoView {
                    strategy_name: strategy,
                    shares,
                    airdrop_pointer: opened_pointer,
                },
            ),
            ..user
        },
    }
}

/// The pointer that a new position in a strategy starts from: the
/// strategy's own where it tracks airdrops, so that nothing that accrued
/// before falls to the newcomer; the origin where it does not.
pub open spec fn opening_pointer(
    info: StrategyInfoView,
    metadata: StrategyMetadataView,
) -> Holding {
    if info.supports_airdrops() {
        metadata.global_airdrop_pointer
    } else {
        Holding::nothing()
    }
}

/// One request of a batch of rewards, applied to the store. A request for a
/// strategy that is not fully registered changes nothing. Else the rate is
/// brought up to date with what the investment contract holds, shares are
/// minted at that rate for the strategy and the user, the rewards are added
/// to the collector's total, and a message hands them to the strategy.
/// `Overflow` where one of the sums or the minted shares need more than 128 bits.
pub open spec fn reward_step(
    store: StoreView,
    querier: Map<Seq<char>, Option<u128>>,
    request: UpdateUserRewardsRequestView,
) -> Result<(StoreView, RewardOutcomeView), ContractError> {
    let id = request.strategy_id;
    if !store.strategy_info_map.dom().contains(id) {
        Ok((store, RewardOutcomeView::Skipped(SkipReason::StrategyInfoMissing)))
    } else if !store.strategy_metadata_map.dom().contains(id) {
        Ok((store, RewardOutcomeView::Skipped(SkipReason::StrategyMetadataMissing)))
    } else {
        let info = store.strategy_info_map[id];
        let synced = store.strategy_metadata_map[id].synced(
            sic_total_tokens(querier, info.sic_contract_address),
        );
        let user = user_record(store, request.user);
        match (synced.minted(request.rewards), synced.deposited(request.rewards)) {
            (Ok(minted), Ok(metadata)) => match decimal_sum(held_shares(user, id), minted) {
                Ok(shares) => if store.state.total_accumulated_rewards + request.rewards
                    > u128::MAX {
                    Err(ContractError::Overflow)
                } else {
                    Ok(
                        (
                            StoreView {
                                state: StateView {
                                    total_accumulated_rewards: (
                                    store.state.total_accumulated_rewards
                                        + request.rewards) as u128,
                                    ..store.state
                                },
                                strategy_metadata_map: store.strategy_metadata_map.insert(
                                    id,
                                    metadata,
                                ),
                                user_reward_info_map: store.user_reward_info_map.insert(
                                    request.user,
                                    with_shares(user, id, opening_pointer(info, metadata), shares),
                                ),
                                ..store
                            },
                            RewardOutcomeView::Applied(
                                CosmosMsgView::TransferRewards {
                                    contract_addr: info.sic_contract_address,
                                    funds: (store.state.scc_denom, request.rewards as nat),
                                },
                            ),
                        ),
                    )
                },
                Err(_) => Err(ContractError::Overflow),
            },
            _ => Err(ContractError::Overflow),
        }
    }
}

/// Applies one request of a batch of rewards, as `reward_step` says. A
/// request that fails leaves the store as it was.
pub fn update_user_reward(
    store: &mut Store,
    querier: &Table<GetTotalTokensResponse>,
    request: &UpdateUserRewardsRequest,
) -> (result: Result<RewardOutcome, ContractError>)
    ensures
        match result {
            Ok(outcome) => reward_step(old(store)@, querier@, request@) == Ok::<
                (StoreView, RewardOutcomeView),
                ContractError,
            >((final(store)@, outcome@)),
            Err(e) => reward_step(old(store)@, querier@, request@) == Err::<
                (StoreView, RewardOutcomeView),
                ContractError,
            >(e) && *final(store) == *old(store),
        },
{
    let (sic_address, supports) = match store.strategy_info_map.may_load(&request.strategy_id) {
        Some(info) => (info.sic_contract_address.clone(), strategy_supports_airdrops(info)),
        None => {
            return Ok(RewardOutcome::Skipped(SkipReason::StrategyInfoMissing));
        },
    };
    let mut strategy_metadata = match store.strategy_metadata_map.may_load(&request.strategy_id) {
        Some(metadata) => metadata.duplicate(),
        None => {
            return Ok(RewardOutcome::Skipped(SkipReason::StrategyMetadataMissing));
        },
    };
    let total_tokens = match get_sic_total_tokens(querier, &sic_address).total_tokens {
        Some(total) => total,
        None => 0,
    };
    strategy_metadata.sync(total_tokens);
    let user_shares = match strategy_metadata.deposit(request.rewards) {
        Ok(minted) => minted,
        Err(_) => {
            return Err(ContractError::Overflow);
        },
    };
    let mut user_reward_info = match store.user_reward_info_map.may_load(&request.user) {
        Some(user) => user.duplicate(),
        None => UserRewardInfo::new(),
    };
    let ghost old_user = user_reward_info@;
    match find_user_strategy(&user_reward_info, &request.strategy_id) {
        Some(i) => {
            let mut user_strategy_data = user_reward_info.strategies[i].duplicate();
            user_strategy_data.shares = match decimal_summation_in_256(
                user_strategy_data.shares,
                user_shares,
            ) {
                Ok(sum) => sum,
                Err(_) => {
                    return Err(ContractError::Overflow);
                },
            };
            let ghost held = user_strategy_data.shares;
            user_reward_info.strategies.set(i, user_strategy_data);
            assert(position_views(user_reward_info.strategies@) =~= old_user.strategies.update(
                i as int,
                UserStrategyInfoView { shares: held, ..old_user.strategies[i as int] },
            ));
        },
        None => {
            let mut user_strategy_data = UserStrategyInfo::new(request.strategy_id.clone());
            if supports {
                user_strategy_data.airdrop_pointer = clone_dec_coin_vector(
                    &strategy_metadata.global_airdrop_pointer,
                );
            }
            user_strategy_data.shares = user_shares;
            let ghost opening = user_strategy_data@;
            user_reward_info.strategies.push(user_strategy_data);
            assert(position_views(user_reward_info.strategies@) =~= old_user.strategies.push(
                opening,
            ));
        },
    }
    let total_accumulated_rewards = match store.state.total_accumulated_rewards.checked_add(
        request.rewards,
    ) {
        Some(sum) => sum,
        None => {
            return Err(ContractError::Overflow);
        },
    };
    store.strategy_metadata_map.save(request.strategy_id.clone(), strategy_metadata);
    store.user_reward_info_map.save(request.user.clone(), user_reward_info);
    store.state.total_accumulated_rewards = total_accumulated_rewards;
    Ok(
        RewardOutcome::Applied(
            CosmosMsg::TransferRewards {
                contract_addr: sic_address,
                funds: Coin { denom: store.state.scc_denom.clone(), amount: request.rewards },
            },
        ),
    )
}

/// How a command ends: the store as it leaves it, and the messages or the
/// error that it returns.
pub struct Outcome {
    pub store: StoreView,
    pub result: Result<Seq<CosmosMsgView>, ContractError>,
}

/// The outcome that a store and a returned value make up.
pub open spec fn outcome_of(store: StoreView, result: Result<Response, ContractError>) -> Outcome {
    Outcome {
        store,
        result: match result {
            Ok(response) => Ok(response@),
            Err(e) => Err(e),
        },
    }
}

/// What became of a request of a batch, for the batch's report.
#[derive(Clone, Copy, Debug, PartialEq, Eq, Structural)]
pub enum RequestOutcome {
    /// The request was carried out.
    Applied,
    /// The request was passed over, and nothing was changed.
    Skipped(SkipReason),
}

/// How far a batch got: the store after its last request that was tried,
/// what became of each request up to there, the messages of those that
/// were applied, and the error that stopped it, if one did.
pub struct BatchProgress {
    pub store: StoreView,
    pub outcomes: Seq<RequestOutcome>,
    pub messages: Seq<CosmosMsgView>,
    pub error: Option<ContractError>,
}

/// A batch of rewards, applied to the store request by request in the order
/// given, each request on the store as the one before left it. A request
/// that is passed over does not stop the batch; the first request that
/// fails does.
pub open spec fn rewards_batch(
    store: StoreView,
    querier: Map<Seq<char>, Option<u128>>,
    requests: Seq<UpdateUserRewardsRequestView>,
) -> BatchProgress
    decreases requests.len(),
{
    if requests.len() == 0 {
        BatchProgress { store, outcomes: Seq::empty(), messages: Seq::empty(), error: None }
    } else {
        let earlier = rewards_batch(store, querier, requests.drop_last());
        if earlier.error is Some {
            earlier
        } else {
            match reward_step(earlier.store, querier, requests.last()) {
                Ok((next, RewardOutcomeView::Applied(message))) => BatchProgress {
                    store: next,
                    outcomes: earlier.outcomes.push(RequestOutcome::Applied),
                    messages: earlier.messages.push(message),
                    error: None,
                },
                Ok((next, RewardOutcomeView::Skipped(reason))) => BatchProgress {
                    store: next,
                    outcomes: earlier.outcomes.push(RequestOutcome::Skipped(reason)),
                    ..earlier
                },
                Err(e) => BatchProgress { error: Some(e), ..earlier },
            }
        }
    }
}

/// A batch that has failed after `k` requests stays as it is, whatever follows.
pub proof fn lemma_rewards_batch_stopped(
    store: StoreView,
    querier: Map<Seq<char>, Option<u128>>,
    requests: Seq<UpdateUserRewardsRequestView>,
    k: int,
)
    requires
        0 <= k <= requests.len(),
        rewards_batch(store, querier, requests.take(k)).error is Some,
    ensures
        rewards_batch(store, querier, requests) == rewards_batch(store, querier, requests.take(k)),
    decreases requests.len() - k,
{
    if k == requests.len() {
        assert(requests.take(k) =~= requests);
    } else {
        assert(requests.take(k + 1).drop_last() =~= requests.take(k));
        lemma_rewards_batch_stopped(store, querier, requests, k + 1);
    }
}

/// The report of a batch: what became of each request that was tried, in
/// their order, the messages of those that were applied, and the error that
/// stopped the batch, if one did.
#[derive(Clone, Debug, PartialEq, Eq)]
pub struct BatchReport {
    pub outcomes: Vec<RequestOutcome>,
    pub messages: Vec<CosmosMsg>,
    pub error: Option<ContractError>,
}

/// Applies a batch of rewards to the store, as `rewards_batch` says, and
/// reports on it. Who calls is not asked.
pub fn apply_user_rewards(
    store: &mut Store,
    querier: &Table<GetTotalTokensResponse>,
    requests: &Vec<UpdateUserRewardsRequest>,
) -> (report: BatchReport)
    ensures
        rewards_batch(old(store)@, querier@, rewards_request_views(requests@)) == (BatchProgress {
            store: final(store)@,
            outcomes: report.outcomes@,
            messages: message_views(report.messages@),
            error: report.error,
        }),
{
    let ghost start = store@;
    let ghost views = rewards_request_views(requests@);
    let mut outcomes: Vec<RequestOutcome> = Vec::new();
    let mut messages: Vec<CosmosMsg> = Vec::new();
    let mut i: usize = 0;
    assert(views.take(0) =~= Seq::<UpdateUserRewardsRequestView>::empty());
    assert(message_views(messages@) =~= Seq::<CosmosMsgView>::empty());
    assert(outcomes@ =~= Seq::<RequestOutcome>::empty());
    while i < requests.len()
        invariant
            i <= requests.len(),
            views == rewards_request_views(requests@),
            start == old(store)@,
            rewards_batch(start, querier@, views.take(i as int)) == (BatchProgress {
                store: store@,
                outcomes: outcomes@,
                messages: message_views(messages@),
                error: None,
            }),
        decreases requests.len() - i,
    {
        proof {
            assert(views.take(i + 1).drop_last() =~= views.take(i as int));
            assert(views.take(i + 1).last() == requests[i as int]@);
        }
        let ghost sent = messages@;
        match update_user_reward(store, querier, &requests[i]) {
            Ok(RewardOutcome::Applied(message)) => {
                messages.push(message);
                outcomes.push(RequestOutcome::Applied);
                assert(message_views(messages@) =~= message_views(sent).push(message@));
            },
            Ok(RewardOutcome::Skipped(reason)) => {
                outcomes.push(RequestOutcome::Skipped(reason));
            },
            Err(e) => {
                proof {
                    lemma_rewards_batch_stopped(start, querier@, views, i + 1);
                }
                return BatchReport { outcomes, messages, error: Some(e) };
            },
        }
        i += 1;
    }
    assert(views.take(requests.len() as int) =~= views);
    BatchReport { outcomes, messages, error: None }
}

/// What `try_update_user_rewards` does: nothing for a caller who is not the
/// manager; else the whole batch, or nothing where a request of it fails.
pub open spec fn update_user_rewards(
    store: StoreView,
    querier: Map<Seq<char>, Option<u128>>,
    sender: Seq<char>,
    requests: Seq<UpdateUserRewardsRequestView>,
) -> Outcome {
    if sender != store.state.manager {
        Outcome { store, result: Err(ContractError::Unauthorized) }
    } else {
        let batch = rewards_batch(store, querier, requests);
        match batch.error {
            Some(e) => Outcome { store, result: Err(e) },
            None => Outcome { store: batch.store, result: Ok(batch.messages) },
        }
    }
}

/// Books rewards for users in strategies, request by request in the order
/// given, and returns the messages that hand the rewards to the strategies.
/// `querier` holds what the investment contracts answer when asked for
/// their total tokens, under their addresses. A request for a strategy that
/// is not fully registered is passed over. Only the manager may call. When
/// a request fails, the error is returned and the whole batch is undone.
pub fn try_update_user_rewards(
    store: &mut Store,
    querier: &Table<GetTotalTokensResponse>,
    _env: &Env,
    info: &MessageInfo,
    update_user_rewards_requests: Vec<UpdateUserRewardsRequest>,
) -> (result: Result<Response, ContractError>)
    ensures
        outcome_of(final(store)@, result) == update_user_rewards(
            old(store)@,
            querier@,
            info.sender@,
            rewards_request_views(update_user_rewards_requests@),
        ),
        info.sender@ != old(store).state.manager@ ==> *final(store) == *old(store),
{
    if info.sender != store.state.manager {
        return Err(ContractError::Unauthorized);
    }
    let before = store.duplicate();
    let report = apply_user_rewards(store, querier, &update_user_rewards_requests);
    match report.error {
        Some(e) => {
            *store = before;
            Err(e)
        },
        None => Ok(Response { messages: report.messages }),
    }
}

/// One request of a batch of airdrops, applied to the store: the airdrops
/// are added to the collector's total and to what waits for the user, and
/// both are kept in canonical form. `Overflow` where a sum needs more than
/// 128 bits.
pub open spec fn airdrop_step(store: StoreView, request: UpdateUserAirdropsRequestView) -> Result<
    StoreView,
    ContractError,
> {
    let user = user_record(store, request.user);
    match (
        merged(
            store.state.total_accumulated_airdrops.balance,
            Operation::Add,
            request.pool_airdrops,
        ),
        merged(user.pending_airdrops.balance, Operation::Add, request.pool_airdrops),
    ) {
        (Ok(total), Ok(pending)) => Ok(
            StoreView {
                state: StateView {
                    total_accumulated_airdrops: Holding { balance: total, canonical: true },
                    ..store.state
                },
                user_reward_info_map: store.user_reward_info_map.insert(
                    request.user,
                    UserRewardInfoView {
                        pending_airdrops: Holding { balance: pending, canonical: true },
                        ..user
                    },
                ),
                ..store
            },
        ),
        _ => Err(ContractError::Overflow),
    }
}

/// Applies one request of a batch of airdrops, as `airdrop_step` says. A
/// request that fails leaves the store as it was.
pub fn update_user_airdrop(store: &mut Store, request: &UpdateUserAirdropsRequest) -> (result:
    Result<(), ContractError>)
    ensures
        match result {
            Ok(()) => airdrop_step(old(store)@, request@) == Ok::<StoreView, ContractError>(
                final(store)@,
            ),
            Err(e) => airdrop_step(old(store)@, request@) == Err::<StoreView, ContractError>(e)
                && *final(store) == *old(store),
        },
{
    let total_scc_airdrops = match merge_coin_vector(
        clone_coin_vector(&store.state.total_accumulated_airdrops),
        CoinVecOp { fund: clone_coin_vector(&request.pool_airdrops), operation: Operation::Add },
    ) {
        Ok(total) => total,
        Err(_) => {
            return Err(ContractError::Overflow);
        },
    };
    let user_reward_info = match store.user_reward_info_map.may_load(&request.user) {
        Some(user) => user.duplicate(),
        None => UserRewardInfo::new(),
    };
    let pending_airdrops = match merge_coin_vector(
        user_reward_info.pending_airdrops,
        CoinVecOp { fund: clone_coin_vector(&request.pool_airdrops), operation: Operation::Add },
    ) {
        Ok(pending) => pending,
        Err(_) => {
            return Err(ContractError::Overflow);
        },
    };
    store.user_reward_info_map.save(
        request.user.clone(),
        UserRewardInfo { strategies: user_reward_info.strategies, pending_airdrops },
    );
    store.state.total_accumulated_airdrops = total_scc_airdrops;
    Ok(())
}

/// How far a batch of airdrops got: the store after its last request that
/// was tried, and the error that stopped it, if one did.
pub struct AirdropProgress {
    pub store: StoreView,
    pub error: Option<ContractError>,
}

/// A batch of airdrops, applied to the store request by request in the
/// order given. The first request that fails stops the batch.
pub open spec fn airdrops_batch(
    store: StoreView,
    requests: Seq<UpdateUserAirdropsRequestView>,
) -> AirdropProgress
    decreases requests.len(),
{
    if requests.len() == 0 {
        AirdropProgress { store, error: None }
    } else {
        let earlier = airdrops_batch(store, requests.drop_last());
        if earlier.error is Some {
            earlier
        } else {
            match airdrop_step(earlier.store, requests.last()) {
                Ok(next) => AirdropProgress { store: next, error: None },
                Err(e) => AirdropProgress { error: Some(e), ..earlier },
            }
        }
    }
}

/// A batch that has failed after `k` requests stays as it is, whatever follows.
pub proof fn lemma_airdrops_batch_stopped(
    store: StoreView,
    requests: Seq<UpdateUserAirdropsRequestView>,
    k: int,
)
    requires
        0 <= k <= requests.len(),
        airdrops_batch(store, requests.take(k)).error is Some,
    ensures
        airdrops_batch(store, requests) == airdrops_batch(store, requests.take(k)),
    decreases requests.len() - k,
{
    if k == requests.len() {
        assert(requests.take(k) =~= requests);
    } else {
        assert(requests.take(k + 1).drop_last() =~= requests.take(k));
        lemma_airdrops_batch_stopped(store, requests, k + 1);
    }
}

/// Applies a batch of airdrops to the store, as `airdrops_batch` says, and
/// returns the error that stopped it, if one did. Who calls is not asked.
pub fn apply_user_airdrops(store: &mut Store, requests: &Vec<UpdateUserAirdropsRequest>) -> (error:
    Option<ContractError>)
    ensures
        airdrops_batch(old(store)@, airdrops_request_views(requests@)) == (AirdropProgress {
            store: final(store)@,
            error,
        }),
{
    let ghost start = store@;
    let ghost views = airdrops_request_views(requests@);
    let mut i: usize = 0;
    assert(views.take(0) =~= Seq::<UpdateUserAirdropsRequestView>::empty());
    while i < requests.len()
        invariant
            i <= requests.len(),
            views == airdrops_request_views(requests@),
            start == old(store)@,
            airdrops_batch(start, views.take(i as int)) == (AirdropProgress {
                store: store@,
                error: None,
            }),
        decreases requests.len() - i,
    {
        proof {
            assert(views.take(i + 1).drop_last() =~= views.take(i as int));
            assert(views.take(i + 1).last() == requests[i as int]@);
        }
        match update_user_airdrop(store, &requests[i]) {
            Ok(()) => {},
            Err(e) => {
                proof {
                    lemma_airdrops_batch_stopped(start, views, i + 1);
                }
                return Some(e);
            },
        }
        i += 1;
    }
    assert(views.take(requests.len() as int) =~= views);
    None
}

/// What `try_update_user_airdrops` does: nothing for a caller who is not
/// the manager; else the whole batch, or nothing where a request of it fails.
pub open spec fn update_user_airdrops(
    store: StoreView,
    sender: Seq<char>,
    requests: Seq<UpdateUserAirdropsRequestView>,
) -> Outcome {
    if sender != store.state.manager {
        Outcome { store, result: Err(ContractError::Unauthorized) }
    } else {
        let batch = airdrops_batch(store, requests);
        match batch.error {
            Some(e) => Outcome { store, result: Err(e) },
            None => Outcome { store: batch.store, result: Ok(Seq::empty()) },
        }
    }
}

/// Books airdrops that fell to users, request by request in the order
/// given. The airdrops themselves are taken to be with the collector
/// already: nothing is transferred. Only the manager may call. When a
/// request fails, the error is returned and the whole batch is undone.
pub fn try_update_user_airdrops(
    store: &mut Store,
    _env: &Env,
    info: &MessageInfo,
    update_user_airdrops_requests: Vec<UpdateUserAirdropsRequest>,
) -> (result: Result<Response, ContractError>)
    ensures
        outcome_of(final(store)@, result) == update_user_airdrops(
            old(store)@,
            info.sender@,
            airdrops_request_views(update_user_airdrops_requests@),
        ),
        info.sender@ != old(store).state.manager@ ==> *final(store) == *old(store),
{
    if info.sender != store.state.manager {
        return Err(ContractError::Unauthorized);
    }
    let before = store.duplicate();
    match apply_user_airdrops(store, &update_user_airdrops_requests) {
        Some(e) => {
            *store = before;
            Err(e)
        },
        None => Ok(Response::new()),
    }
}

/// What `try_register_strategy` does.
pub open spec fn register_strategy(
    store: StoreView,
    sender: Seq<char>,
    strategy_id: Seq<char>,
    unbonding_period: Option<u64>,
    sic_contract_address: Seq<char>,
    supported_airdrops: Seq<Seq<char>>,
) -> Outcome {
    if sender != store.state.manager {
        Outcome { store, result: Err(ContractError::Unauthorized) }
    } else if store.strategy_info_map.dom().contains(strategy_id) {
        Outcome { store, result: Err(ContractError::AlreadyExists(Record::StrategyInfo)) }
    } else if store.strategy_metadata_map.dom().contains(strategy_id) {
        Outcome { store, result: Err(ContractError::AlreadyExists(Record::StrategyMetadata)) }
    } else {
        Outcome {
            store: StoreView {
                strategy_info_map: store.strategy_info_map.insert(
                    strategy_id,
                    StrategyInfoView {
                        name: strategy_id,
                        sic_contract_address,
                        unbonding_period,
                        supported_airdrops,
                        is_active: false,
                    },
                ),
                strategy_metadata_map: store.strategy_metadata_map.insert(
                    strategy_id,
                    StrategyMetadataView::fresh(strategy_id),
                ),
                ..store
            },
            result: Ok(Seq::empty()),
        }
    }
}

/// Registers a strategy under `strategy_id`: inactive, with nothing
/// invested in it. Only the manager may call. Fails, and changes nothing,
/// where a strategy or its distribution state is kept under the identifier
/// already.
pub fn try_register_strategy(
    store: &mut Store,
    _env: &Env,
    info: &MessageInfo,
    strategy_id: String,
    unbonding_period: Option<u64>,
    sic_contract_address: Addr,
    supported_airdrops: Vec<String>,
) -> (result: Result<Response, ContractError>)
    ensures
        outcome_of(final(store)@, result) == register_strategy(
            old(store)@,
            info.sender@,
            strategy_id@,
            unbonding_period,
            sic_contract_address@,
            string_views(supported_airdrops@),
        ),
        result is Err ==> *final(store) == *old(store),
{
    if info.sender != store.state.manager {
        return Err(ContractError::Unauthorized);
    }
    if store.strategy_info_map.has(&strategy_id) {
        return Err(ContractError::AlreadyExists(Record::StrategyInfo));
    }
    if store.strategy_metadata_map.has(&strategy_id) {
        return Err(ContractError::AlreadyExists(Record::StrategyMetadata));
    }
    store.strategy_info_map.save(
        strategy_id.clone(),
        StrategyInfo {
            name: strategy_id.clone(),
            sic_contract_address,
            unbonding_period,
            supported_airdrops,
            is_active: false,
        },
    );
    store.strategy_metadata_map.save(strategy_id.clone(), StrategyMetadata::new(strategy_id));
    Ok(Response::new())
}

/// What `try_activate_strategy` and `try_deactivate_strategy` do: they set
/// the mark that says whether the strategy is active.
pub open spec fn set_strategy_active(
    store: StoreView,
    sender: Seq<char>,
    strategy_id: Seq<char>,
    is_active: bool,
) -> Outcome {
    if sender != store.state.manager {
        Outcome { store, result: Err(ContractError::Unauthorized) }
    } else if !store.strategy_info_map.dom().contains(strategy_id) {
        Outcome { store, result: Err(ContractError::NotFound(Record::StrategyInfo)) }
    } else {
        Outcome {
            store: StoreView {
                strategy_info_map: store.strategy_info_map.insert(
                    strategy_id,
                    StrategyInfoView { is_active, ..store.strategy_info_map[strategy_id] },
                ),
                ..store
            },
            result: Ok(Seq::empty()),
        }
    }
}

fn switch_strategy(
    store: &mut Store,
    info: &MessageInfo,
    strategy_id: String,
    is_active: bool,
) -> (result: Result<Response, ContractError>)
    ensures
        outcome_of(final(store)@, result) == set_strategy_active(
            old(store)@,
            info.sender@,
            strategy_id@,
            is_active,
        ),
        result is Err ==> *final(store) == *old(store),
{
    if info.sender != store.state.manager {
        return Err(ContractError::Unauthorized);
    }
    if !store.strategy_info_map.has(&strategy_id) {
        return Err(ContractError::NotFound(Record::StrategyInfo));
    }
    let ghost before = store@;
    let mut strategy_info = store.strategy_info_map.take(&strategy_id).unwrap();
    strategy_info.is_active = is_active;
    let ghost switched = strategy_info@;
    store.strategy_info_map.save(strategy_id, strategy_info);
    proof {
        assert(store@.strategy_info_map =~= before.strategy_info_map.insert(
            strategy_id@,
            switched,
        ));
    }
    Ok(Response::new())
}

/// Marks a strategy as inactive. Only the manager may call. Fails, and
/// changes nothing, where no strategy is registered under the identifier.
pub fn try_deactivate_strategy(
    store: &mut Store,
    _env: &Env,
    info: &MessageInfo,
    strategy_id: String,
) -> (result: Result<Response, ContractError>)
    ensures
        outcome_of(final(store)@, result) == set_strategy_active(
            old(store)@,
            info.sender@,
            strategy_id@,
            false,
        ),
        result is Err ==> *final(store) == *old(store),
{
    switch_strategy(store, info, strategy_id, false)
}

/// Marks a strategy as active. Only the manager may call. Fails, and
/// changes nothing, where no strategy is registered under the identifier.
pub fn try_activate_strategy(
    store: &mut Store,
    _env: &Env,
    info: &MessageInfo,
    strategy_id: String,
) -> (result: Result<Response, ContractError>)
    ensures
        outcome_of(final(store)@, result) == set_strategy_active(
            old(store)@,
            info.sender@,
            strategy_id@,
            true,
        ),
        result is Err ==> *final(store) == *old(store),
{
    switch_strategy(store, info, strategy_id, true)
}

/// What `try_remove_strategy` does: the strategy leaves the registry; its
/// distribution state stays.
pub open spec fn remove_strategy(
    store: StoreView,
    sender: Seq<char>,
    strategy_id: Seq<char>,
) -> Outcome {
    if sender != store.state.manager {
        Outcome { store, result: Err(ContractError::Unauthorized) }
    } else {
        Outcome {
            store: StoreView {
                strategy_info_map: store.strategy_info_map.remove(strategy_id),
                ..store
            },
            result: Ok(Seq::empty()),
        }
    }
}

/// Takes a strategy out of the registry, whether or not it is there. Its
/// distribution state is kept. Only the manager may call.
pub fn try_remove_strategy(
    store: &mut Store,
    _env: &Env,
    info: &MessageInfo,
    strategy_id: String,
) -> (result: Result<Response, ContractError>)
    ensures
        outcome_of(final(store)@, result) == remove_strategy(
            old(store)@,
            info.sender@,
            strategy_id@,
        ),
        result is Err ==> *final(store) == *old(store),
{
    if info.sender != store.state.manager {
        return Err(ContractError::Unauthorized);
    }
    store.strategy_info_map.remove(&strategy_id);
    Ok(Response::new())
}

/// Undelegating rewards has no behaviour yet: the command fails with
/// `NotImplemented` and changes nothing.
pub fn try_undelegate_rewards(
    store: &mut Store,
    _env: &Env,
    _info: &MessageInfo,
    _amount: u128,
    _strategy_id: String,
) -> (result: Result<Response, ContractError>)
    ensures
        result matches Err(ContractError::NotImplemented),
        *final(store) == *old(store),
{
    Err(ContractError::NotImplemented)
}

/// Claiming airdrops has no behaviour yet: the command fails with
/// `NotImplemented` and changes nothing.
pub fn try_claim_airdrops(
    store: &mut Store,
    _env: &Env,
    _info: &MessageInfo,
    _strategy_id: String,
) -> (result: Result<Response, ContractError>)
    ensures
        result matches Err(ContractError::NotImplemented),
        *final(store) == *old(store),
{
    Err(ContractError::NotImplemented)
}

/// Withdrawing rewards has no behaviour yet: the command fails with
/// `NotImplemented` and changes nothing.
pub fn try_withdraw_rewards(
    store: &mut Store,
    _env: &Env,
    _info: &MessageInfo,
    _undelegation_timestamp: Timestamp,
    _strategy_id: String,
) -> (result: Result<Response, ContractError>)
    ensures
        result matches Err(ContractError::NotImplemented),
        *final(store) == *old(store),
{
    Err(ContractError::NotImplemented)
}

/// Withdrawing airdrops has no behaviour yet: the command fails with
/// `NotImplemented` and changes nothing.
pub fn try_withdraw_airdrops(store: &mut Store, _env: &Env, _info: &MessageInfo) -> (result: Result<
    Response,
    ContractError,
>)
    ensures
        result matches Err(ContractError::NotImplemented),
        *final(store) == *old(store),
{
    Err(ContractError::NotImplemented)
}

/// The store of a collector that has just been set up.
pub open spec fn instantiated(
    env: Env,
    sender: Seq<char>,
    strategy_denom: Seq<char>,
) -> StoreView {
    StoreView {
        state: StateView {
            manager: sender,
            scc_denom: strategy_denom,
            contract_genesis_block_height: env.block.height,
            contract_genesis_timestamp: env.block.time,
            total_accumulated_rewards: 0,
            current_rewards_in_scc: 0,
            total_accumulated_airdrops: Holding::nothing(),
        },
        strategy_info_map: Map::empty(),
        strategy_metadata_map: Map::empty(),
        user_reward_info_map: Map::empty(),
    }
}

/// Sets the collector up: the caller becomes its manager, the block it
/// runs in its beginning, and nothing has been taken in.
pub fn instantiate(env: &Env, info: &MessageInfo, msg: InstantiateMsg) -> (made: (Store, Response))
    ensures
        made.0@ == instantiated(*env, info.sender@, msg.strategy_denom@),
        made.1@ == Seq::<CosmosMsgView>::empty(),
{
    let state = State {
        manager: info.sender.clone(),
        scc_denom: msg.strategy_denom,
        contract_genesis_block_height: env.block.height,
        contract_genesis_timestamp: env.block.time,
        total_accumulated_rewards: 0,
        current_rewards_in_scc: 0,
        total_accumulated_airdrops: Vec::new(),
    };
    proof {
        lemma_empty_holds_nothing();
    }
    let store = Store {
        state,
        strategy_info_map: Table::new(),
        strategy_metadata_map: Table::new(),
        user_reward_info_map: Table::new(),
    };
    (store, Response::new())
}

/// What `execute` does with each command.
pub open spec fn executed(
    store: StoreView,
    querier: Map<Seq<char>, Option<u128>>,
    sender: Seq<char>,
    msg: ExecuteMsgView,
) -> Outcome {
    match msg {
        ExecuteMsgView::RegisterStrategy {
            strategy_id,
            unbonding_period,
            sic_contract_address,
            supported_airdrops,
        } => register_strategy(
            store,
            sender,
            strategy_id,
            unbonding_period,
            sic_contract_address,
            supported_airdrops,
        ),
        ExecuteMsgView::DeactivateStrategy { strategy_id } => set_strategy_active(
            store,
            sender,
            strategy_id,
            false,
        ),
        ExecuteMsgView::ActivateStrategy { strategy_id } => set_strategy_active(
            store,
            sender,
            strategy_id,
            true,
        ),
        ExecuteMsgView::RemoveStrategy { strategy_id } => remove_strategy(
            store,
            sender,
            strategy_id,
        ),
        ExecuteMsgView::UpdateUserRewards { update_user_rewards_requests } => update_user_rewards(
            store,
            querier,
            sender,
            update_user_rewards_requests,
        ),
        ExecuteMsgView::UpdateUserAirdrops {
            update_user_airdrops_requests,
        } => update_user_airdrops(store, sender, update_user_airdrops_requests),
        _ => Outcome { store, result: Err(ContractError::NotImplemented) },
    }
}

/// Carries out a command. `querier` holds what the investment contracts
/// answer when asked for their total tokens, under their addresses. A
/// command that fails changes nothing.
pub fn execute(
    store: &mut Store,
    querier: &Table<GetTotalTokensResponse>,
    env: &Env,
    info: &MessageInfo,
    msg: ExecuteMsg,
) -> (result: Result<Response, ContractError>)
    ensures
        outcome_of(final(store)@, result) == executed(
            old(store)@,
            querier@,
            info.sender@,
            msg@,
        ),
        info.sender@ != old(store).state.manager@ ==> *final(store) == *old(store),
        result is Err ==> final(store)@ == old(store)@,
{
    match msg {
        ExecuteMsg::RegisterStrategy {
            strategy_id,
            unbonding_period,
            sic_contract_address,
            supported_airdrops,
        } => try_register_strategy(
            store,
            env,
            info,
            strategy_id,
            unbonding_period,
            sic_contract_address,
            supported_airdrops,
        ),
        ExecuteMsg::DeactivateStrategy { strategy_id } => try_deactivate_strategy(
            store,
            env,
            info,
            strategy_id,
        ),
        ExecuteMsg::ActivateStrategy { strategy_id } => try_activate_strategy(
            store,
            env,
            info,
            strategy_id,
        ),
        ExecuteMsg::RemoveStrategy { strategy_id } => try_remove_strategy(
            store,
            env,
            info,
            strategy_id,
        ),
        ExecuteMsg::UpdateUserRewards { update_user_rewards_requests } => try_update_user_rewards(
            store,
            querier,
            env,
            info,
            update_user_rewards_requests,
        ),
        ExecuteMsg::UpdateUserAirdrops {
            update_user_airdrops_requests,
        } => try_update_user_airdrops(store, env, info, update_user_airdrops_requests),
        ExecuteMsg::UndelegateRewards { amount, strategy_id } => try_undelegate_rewards(
            store,
            env,
            info,
            amount,
            strategy_id,
        ),
        ExecuteMsg::ClaimAirdrops { strategy_id } => try_claim_airdrops(
            store,
            env,
            info,
            strategy_id,
        ),
        ExecuteMsg::WithdrawRewards {
            undelegation_timestamp,
            strategy_id,
        } => try_withdraw_rewards(store, env, info, undelegation_timestamp, strategy_id),
        ExecuteMsg::WithdrawAirdrops {  } => try_withdraw_airdrops(store, env, info),
    }
}

/// A caller who is not the manager changes nothing: each of the commands
/// that are reserved for the manager fails with `Unauthorized` and leaves
/// the store as it was.
pub proof fn lemma_unauthorized_changes_nothing(
    store: StoreView,
    querier: Map<Seq<char>, Option<u128>>,
    sender: Seq<char>,
    msg: ExecuteMsgView,
)
    requires
        sender != store.state.manager,
        msg.is_managed(),
    ensures
        executed(store, querier, sender, msg) == (Outcome {
            store,
            result: Err(ContractError::Unauthorized),
        }),
{
}

/// Whoever is not the manager changes nothing, whatever the command: it
/// fails, and the store is as it was.
pub proof fn lemma_only_manager_changes(
    store: StoreView,
    querier: Map<Seq<char>, Option<u128>>,
    sender: Seq<char>,
    msg: ExecuteMsgView,
)
    requires
        sender != store.state.manager,
    ensures
        executed(store, querier, sender, msg).store == store,
        executed(store, querier, sender, msg).result is Err,
{
}

/// A command that fails changes nothing: the store is as it was.
pub proof fn lemma_failure_changes_nothing(
    store: StoreView,
    querier: Map<Seq<char>, Option<u128>>,
    sender: Seq<char>,
    msg: ExecuteMsgView,
)
    requires
        executed(store, querier, sender, msg).result is Err,
    ensures
        executed(store, querier, sender, msg).store == store,
{
}

/// A copy of the collector's state.
pub fn query_state(store: &Store) -> (response: StateResponse)
    ensures
        response.state is Some,
        response.state->0@ == store.state@,
{
    let state = State {
        manager: store.state.manager.clone(),
        scc_denom: store.state.scc_denom.clone(),
        contract_genesis_block_height: store.state.contract_genesis_block_height,
        contract_genesis_timestamp: store.state.contract_genesis_timestamp,
        total_accumulated_rewards: store.state.total_accumulated_rewards,
        current_rewards_in_scc: store.state.current_rewards_in_scc,
        total_accumulated_airdrops: clone_coin_vector(&store.state.total_accumulated_airdrops),
    };
    StateResponse { state: Some(state) }
}

/// Answers a question.
pub fn query(store: &Store, _env: &Env, msg: QueryMsg) -> (response: StateResponse)
    ensures
        response.state is Some,
        response.state->0@ == store.state@,
{
    match msg {
        QueryMsg::GetState {  } => query_state(store),
    }
}


/// A record that was given shares in a strategy holds them there.
pub proof fn lemma_with_shares_held(
    user: UserRewardInfoView,
    strategy: Seq<char>,
    opened_pointer: Holding,
    shares: Decimal,
)
    ensures
        held_shares(with_shares(user, strategy, opened_pointer, shares), strategy) == shares,
{
    let after = with_shares(user, strategy, opened_pointer, shares).strategies;
    match position_of(user.strategies, strategy) {
        Some(i) => {
            assert(first_at(user.strategies, strategy, i));
            assert forall|j: int| 0 <= j < i implies (#[trigger] after[j]).strategy_name
                != strategy by {
                assert(user.strategies[j].strategy_name != strategy);
            }
            assert(first_at(after, strategy, i));
            lemma_first_at_unique(after, strategy, i);
        },
        None => {
            let n = user.strategies.len() as int;
            assert forall|j: int| 0 <= j < n implies (#[trigger] after[j]).strategy_name
                != strategy by {
                if user.strategies[j].strategy_name == strategy {
                    lemma_first_at_exists(user.strategies, strategy, j);
                }
            }
            assert(first_at(after, strategy, n));
            lemma_first_at_unique(after, strategy, n);
        },
    }
}

/// No share is lost and none is counted twice. A request that is applied
/// mints the same shares for the strategy and for the user, at the rate
/// that the strategy was synced to; it adds the rewards to the collector's
/// total and sends as many to the strategy; and it leaves every other
/// strategy and every other user as they were.
pub proof fn lemma_reward_step_conserves(
    store: StoreView,
    querier: Map<Seq<char>, Option<u128>>,
    request: UpdateUserRewardsRequestView,
)
    requires
        reward_step(store, querier, request) is Ok,
        reward_step(store, querier, request)->Ok_0.1 is Applied,
    ensures
        ({
            let id = request.strategy_id;
            let next = reward_step(store, querier, request)->Ok_0.0;
            let rate = next.strategy_metadata_map[id].shares_per_token_ratio;
            let minted = rate.atomics * request.rewards;
            &&& rate == exchange_rate(
                store.strategy_metadata_map[id].total_shares,
                sic_total_tokens(querier, store.strategy_info_map[id].sic_contract_address),
            )
            &&& next.strategy_metadata_map[id].total_shares.atomics
                == store.strategy_metadata_map[id].total_shares.atomics + minted
            &&& held_shares(next.user_reward_info_map[request.user], id).atomics == held_shares(
                user_record(store, request.user),
                id,
            ).atomics + minted
            &&& next.state.total_accumulated_rewards == store.state.total_accumulated_rewards
                + request.rewards
            &&& reward_step(store, querier, request)->Ok_0.1 == RewardOutcomeView::Applied(
                CosmosMsgView::TransferRewards {
                    contract_addr: store.strategy_info_map[id].sic_contract_address,
                    funds: (store.state.scc_denom, request.rewards as nat),
                },
            )
            &&& next.strategy_info_map == store.strategy_info_map
            &&& forall|other: Seq<char>|
                other != id ==> next.strategy_metadata_map.dom().contains(other)
                    == store.strategy_metadata_map.dom().contains(other)
                    && #[trigger] next.strategy_metadata_map[other]
                    == store.strategy_metadata_map[other]
            &&& forall|other: Seq<char>|
                other != request.user ==> next.user_reward_info_map.dom().contains(other)
                    == store.user_reward_info_map.dom().contains(other)
                    && #[trigger] next.user_reward_info_map[other]
                    == store.user_reward_info_map[other]
        }),
{
    let id = request.strategy_id;
    let info = store.strategy_info_map[id];
    let synced = store.strategy_metadata_map[id].synced(
        sic_total_tokens(querier, info.sic_contract_address),
    );
    let metadata = synced.deposited(request.rewards)->Ok_0;
    let minted = synced.minted(request.rewards)->Ok_0;
    let user = user_record(store, request.user);
    let shares = decimal_sum(held_shares(user, id), minted)->Ok_0;
    lemma_with_shares_held(user, id, opening_pointer(info, metadata), shares);
}

/// What the collector has taken in never shrinks: after a batch of rewards,
/// however far it got, the total of rewards is at least what it was.
pub proof fn lemma_rewards_accumulate(
    store: StoreView,
    querier: Map<Seq<char>, Option<u128>>,
    requests: Seq<UpdateUserRewardsRequestView>,
)
    ensures
        rewards_batch(store, querier, requests).store.state.total_accumulated_rewards
            >= store.state.total_accumulated_rewards,
        rewards_batch(store, querier, requests).store.state.total_accumulated_airdrops
            == store.state.total_accumulated_airdrops,
        rewards_batch(store, querier, requests).outcomes.len() <= requests.len(),
        rewards_batch(store, querier, requests).error is None ==> rewards_batch(
            store,
            querier,
            requests,
        ).outcomes.len() == requests.len(),
    decreases requests.len(),
{
    if requests.len() > 0 {
        lemma_rewards_accumulate(store, querier, requests.drop_last());
    }
}

/// What the collector has received in airdrops never shrinks: after a
/// batch of airdrops, however far it got, it holds of every denomination at
/// least what it held.
pub proof fn lemma_airdrops_accumulate(
    store: StoreView,
    requests: Seq<UpdateUserAirdropsRequestView>,
)
    ensures
        balance_covers(
            airdrops_batch(store, requests).store.state.total_accumulated_airdrops.balance,
            store.state.total_accumulated_airdrops.balance,
        ),
        airdrops_batch(store, requests).store.state.total_accumulated_rewards
            == store.state.total_accumulated_rewards,
    decreases requests.len(),
{
    if requests.len() > 0 {
        lemma_airdrops_accumulate(store, requests.drop_last());
        let earlier = airdrops_batch(store, requests.drop_last());
        let later = airdrops_batch(store, requests);
        assert forall|d: Seq<char>|
            #[trigger] amount_in(store.state.total_accumulated_airdrops.balance, d) <= amount_in(
                later.store.state.total_accumulated_airdrops.balance,
                d,
            ) by {
            assert(amount_in(store.state.total_accumulated_airdrops.balance, d) <= amount_in(
                earlier.store.state.total_accumulated_airdrops.balance,
                d,
            ));
        }
    }
}


/// What a batch of airdrops writes is in canonical form. After a batch that
/// went through, what the collector has received holds no denomination
/// twice and none with amount zero, and the same is true of what waits for
/// every user named in the batch, each of whom has a record.
pub proof fn lemma_airdrops_kept_canonical(
    store: StoreView,
    requests: Seq<UpdateUserAirdropsRequestView>,
    i: int,
)
    requires
        airdrops_batch(store, requests).error is None,
        0 <= i < requests.len(),
    ensures
        airdrops_batch(store, requests).store.state.total_accumulated_airdrops.canonical,
        airdrops_batch(store, requests).store.user_reward_info_map.dom().contains(
            requests[i].user,
        ),
        airdrops_batch(store, requests).store.user_reward_info_map[requests[i].user]
            .pending_airdrops.canonical,
    decreases requests.len(),
{
    if i < requests.len() - 1 {
        lemma_airdrops_kept_canonical(store, requests.drop_last(), i);
    }
}

} // verus!
