use stader_contracts::coin_utils::{check_equal_vec, Coin, DecCoin};
use stader_contracts::decimal::Decimal;
use stader_contracts::error::{ContractError, Record};
use stader_contracts::host::{BlockInfo, CosmosMsg, Env, MessageInfo, Response, Timestamp};
use stader_contracts::scc::contract::{
    apply_user_airdrops, apply_user_rewards, execute, instantiate, query, query_state,
    try_activate_strategy, try_claim_airdrops, RequestOutcome,
    try_deactivate_strategy, try_register_strategy, try_remove_strategy,
    try_undelegate_rewards, try_update_user_airdrops, try_update_user_rewards,
    try_withdraw_airdrops, try_withdraw_rewards, update_user_airdrop, update_user_reward,
    RewardOutcome, SkipReason,
};
use stader_contracts::scc::helpers::{
    find_user_strategy, get_sic_total_tokens, get_user_strategy_data, strategy_supports_airdrops,
};
use stader_contracts::scc::msg::{
    ExecuteMsg, InstantiateMsg, QueryMsg, UpdateUserAirdropsRequest, UpdateUserRewardsRequest,
};
use stader_contracts::scc::state::{State, Store, UserRewardInfo, UserStrategyInfo};
use stader_contracts::sic_base::msg::GetTotalTokensResponse;
use stader_contracts::table::Table;

const ONE: u128 = 1_000_000_000_000_000_000;

fn mock_env() -> Env {
    Env { block: BlockInfo { height: 12_345, time: Timestamp::from_nanos(1_571_797_419_879_305_533) } }
}

fn mock_info(sender: &str, funds: Vec<Coin>) -> MessageInfo {
    MessageInfo::new(sender, funds)
}

fn no_answers() -> Table<GetTotalTokensResponse> {
    Table::new()
}

fn collector() -> Store {
    let msg = InstantiateMsg { strategy_denom: "uluna".to_string() };
    instantiate(&mock_env(), &mock_info("creator", vec![]), msg).0
}

fn airdrop_requests() -> Vec<UpdateUserAirdropsRequest> {
    vec![
        UpdateUserAirdropsRequest {
            user: "user-1".to_string(),
            pool_airdrops: vec![Coin::new(100_u128, "abc"), Coin::new(50_u128, "def")],
        },
        UpdateUserAirdropsRequest {
            user: "user-2".to_string(),
            pool_airdrops: vec![Coin::new(50_u128, "abc"), Coin::new(50_u128, "def")],
        },
        UpdateUserAirdropsRequest {
            user: "user-3".to_string(),
            pool_airdrops: vec![Coin::new(200_u128, "abc"), Coin::new(100_u128, "def")],
        },
        UpdateUserAirdropsRequest { user: "user-4".to_string(), pool_airdrops: vec![] },
    ]
}

fn pending_of(store: &Store, user: &str) -> Vec<Coin> {
    let record = store.user_reward_info_map.may_load(&user.to_string());
    assert!(record.is_some());
    record.unwrap().pending_airdrops.clone()
}

#[test]
fn proper_initialization() {
    let msg = InstantiateMsg { strategy_denom: "uluna".to_string() };
    let info = mock_info("creator", vec![Coin::new(1000, "earth")]);
    let env = mock_env();

    let (store, res) = instantiate(&env, &info, msg);
    assert_eq!(0, res.messages.len());

    let res = query_state(&store);
    assert_eq!(
        res.state.unwrap(),
        State {
            manager: info.sender,
            scc_denom: "uluna".to_string(),
            contract_genesis_block_height: env.block.height,
            contract_genesis_timestamp: env.block.time,
            total_accumulated_rewards: 0,
            current_rewards_in_scc: 0,
            total_accumulated_airdrops: vec![]
        }
    );
}

#[test]
fn test__try_update_user_airdrops_fail() {
    let msg = InstantiateMsg { strategy_denom: "uluna".to_string() };
    let info = mock_info("creator", vec![]);
    let env = mock_env();
    let (mut store, _res) = instantiate(&env, &info, msg);

    let err = execute(
        &mut store,
        &no_answers(),
        &env,
        &mock_info("not-creator", vec![]),
        ExecuteMsg::UpdateUserAirdrops { update_user_airdrops_requests: vec![] },
    )
    .unwrap_err();
    assert!(matches!(err, ContractError::Unauthorized {}));

    let res = execute(
        &mut store,
        &no_answers(),
        &env,
        &mock_info("creator", vec![]),
        ExecuteMsg::UpdateUserAirdrops { update_user_airdrops_requests: vec![] },
    )
    .unwrap();
    assert_eq!(res, Response::new());
}

#[test]
fn test__try_update_user_airdrops_success() {
    let msg = InstantiateMsg { strategy_denom: "uluna".to_string() };
    let info = mock_info("creator", vec![]);
    let env = mock_env();
    let (mut store, _res) = instantiate(&env, &info, msg);

    execute(
        &mut store,
        &no_answers(),
        &env,
        &mock_info("creator", vec![]),
        ExecuteMsg::UpdateUserAirdrops { update_user_airdrops_requests: airdrop_requests() },
    )
    .unwrap();
    let state_response = query_state(&store);
    assert_ne!(state_response.state, None);
    let state = state_response.state.unwrap();
    assert!(check_equal_vec(
        &state.total_accumulated_airdrops,
        &vec![Coin::new(350_u128, "abc"), Coin::new(200_u128, "def")]
    )
    .unwrap());
    assert!(check_equal_vec(
        &pending_of(&store, "user-1"),
        &vec![Coin::new(100_u128, "abc"), Coin::new(50_u128, "def")]
    )
    .unwrap());
    assert!(check_equal_vec(
        &pending_of(&store, "user-2"),
        &vec![Coin::new(50_u128, "abc"), Coin::new(50_u128, "def")]
    )
    .unwrap());
    assert!(check_equal_vec(
        &pending_of(&store, "user-3"),
        &vec![Coin::new(200_u128, "abc"), Coin::new(100_u128, "def")]
    )
    .unwrap());
    assert!(check_equal_vec(&pending_of(&store, "user-4"), &vec![]).unwrap());

    store.state.total_accumulated_airdrops =
        vec![Coin::new(100_u128, "abc"), Coin::new(200_u128, "def")];
    store.user_reward_info_map.save(
        "user-1".to_string(),
        UserRewardInfo {
            strategies: vec![],
            pending_airdrops: vec![Coin::new(10_u128, "abc"), Coin::new(200_u128, "def")],
        },
    );
    store.user_reward_info_map.save(
        "user-2".to_string(),
        UserRewardInfo {
            strategies: vec![],
            pending_airdrops: vec![Coin::new(20_u128, "abc"), Coin::new(100_u128, "def")],
        },
    );
    store.user_reward_info_map.save(
        "user-3".to_string(),
        UserRewardInfo {
            strategies: vec![],
            pending_airdrops: vec![Coin::new(30_u128, "abc"), Coin::new(50_u128, "def")],
        },
    );
    store.user_reward_info_map.save(
        "user-4".to_string(),
        UserRewardInfo {
            strategies: vec![],
            pending_airdrops: vec![Coin::new(40_u128, "abc"), Coin::new(80_u128, "def")],
        },
    );

    execute(
        &mut store,
        &no_answers(),
        &env,
        &mock_info("creator", vec![]),
        ExecuteMsg::UpdateUserAirdrops { update_user_airdrops_requests: airdrop_requests() },
    )
    .unwrap();
    let state_response = query_state(&store);
    assert_ne!(state_response.state, None);
    let state = state_response.state.unwrap();
    assert!(check_equal_vec(
        &state.total_accumulated_airdrops,
        &vec![Coin::new(450_u128, "abc"), Coin::new(400_u128, "def")]
    )
    .unwrap());
    assert!(check_equal_vec(
        &pending_of(&store, "user-1"),
        &vec![Coin::new(110_u128, "abc"), Coin::new(250_u128, "def")]
    )
    .unwrap());
    assert!(check_equal_vec(
        &pending_of(&store, "user-2"),
        &vec![Coin::new(70_u128, "abc"), Coin::new(150_u128, "def")]
    )
    .unwrap());
    assert!(check_equal_vec(
        &pending_of(&store, "user-3"),
        &vec![Coin::new(230_u128, "abc"), Coin::new(150_u128, "def")]
    )
    .unwrap());
    assert!(check_equal_vec(
        &pending_of(&store, "user-4"),
        &vec![Coin::new(40_u128, "abc"), Coin::new(80_u128, "def")]
    )
    .unwrap());
}

#[test]
fn airdrop_batch_that_overflows_reports_overflow() {
    let mut store = collector();
    let requests = vec![
        UpdateUserAirdropsRequest {
            user: "user-1".to_string(),
            pool_airdrops: vec![Coin::new(u128::MAX, "abc")],
        },
        UpdateUserAirdropsRequest {
            user: "user-2".to_string(),
            pool_airdrops: vec![Coin::new(1, "abc")],
        },
    ];
    let err = try_update_user_airdrops(
        &mut store,
        &mock_env(),
        &mock_info("creator", vec![]),
        requests,
    )
    .unwrap_err();
    assert_eq!(err, ContractError::Overflow);
    // the first request was applied before the second failed: it is undone
    assert!(store.user_reward_info_map.may_load(&"user-1".to_string()).is_none());
    assert!(store.user_reward_info_map.may_load(&"user-2".to_string()).is_none());
    assert_eq!(store.state.total_accumulated_airdrops, vec![]);
}

#[test]
fn airdrop_batch_applied_without_the_manager_stops_where_it_fails() {
    let mut store = collector();
    let requests = vec![
        UpdateUserAirdropsRequest {
            user: "user-1".to_string(),
            pool_airdrops: vec![Coin::new(u128::MAX, "abc")],
        },
        UpdateUserAirdropsRequest {
            user: "user-2".to_string(),
            pool_airdrops: vec![Coin::new(1, "abc")],
        },
        UpdateUserAirdropsRequest {
            user: "user-3".to_string(),
            pool_airdrops: vec![Coin::new(1, "def")],
        },
    ];
    assert_eq!(apply_user_airdrops(&mut store, &requests), Some(ContractError::Overflow));
    assert_eq!(pending_of(&store, "user-1"), vec![Coin::new(u128::MAX, "abc")]);
    assert!(store.user_reward_info_map.may_load(&"user-2".to_string()).is_none());
    assert!(store.user_reward_info_map.may_load(&"user-3".to_string()).is_none());
}

#[test]
fn rewards_batch_is_all_or_nothing() {
    let mut store = collector();
    register(&mut store, "sid1", "sic1", vec![]);
    let requests = vec![reward("user-1", "sid1", 5), reward("user-2", "nope", 1), reward("user-3", "sid1", u128::MAX)];
    let err = try_update_user_rewards(
        &mut store,
        &no_answers(),
        &mock_env(),
        &mock_info("creator", vec![]),
        requests.clone(),
    )
    .unwrap_err();
    assert_eq!(err, ContractError::Overflow);
    assert_eq!(store.state.total_accumulated_rewards, 0);
    assert_eq!(store.user_reward_info_map.len(), 0);
    assert_eq!(
        store.strategy_metadata_map.may_load(&"sid1".to_string()).unwrap().total_shares,
        Decimal::zero()
    );
    assert!(store.strategy_info_map.may_load(&"sid1".to_string()).is_some());

    let report = apply_user_rewards(&mut store, &no_answers(), &requests);
    assert_eq!(report.error, Some(ContractError::Overflow));
    assert_eq!(
        report.outcomes,
        vec![RequestOutcome::Applied, RequestOutcome::Skipped(SkipReason::StrategyInfoMissing)]
    );
    assert_eq!(
        report.messages,
        vec![CosmosMsg::TransferRewards {
            contract_addr: "sic1".to_string(),
            funds: Coin::new(5, "uluna"),
        }]
    );
    assert_eq!(store.state.total_accumulated_rewards, 5);
}

#[test]
fn airdrops_are_kept_in_canonical_form() {
    let mut store = collector();
    let requests = vec![
        UpdateUserAirdropsRequest {
            user: "user-1".to_string(),
            pool_airdrops: vec![Coin::new(5, "abc"), Coin::new(0, "def"), Coin::new(7, "abc")],
        },
        UpdateUserAirdropsRequest {
            user: "user-2".to_string(),
            pool_airdrops: vec![Coin::new(0, "ghi")],
        },
        UpdateUserAirdropsRequest {
            user: "user-1".to_string(),
            pool_airdrops: vec![Coin::new(1, "def"), Coin::new(1, "abc")],
        },
    ];
    try_update_user_airdrops(&mut store, &mock_env(), &mock_info("creator", vec![]), requests)
        .unwrap();
    assert_eq!(
        store.state.total_accumulated_airdrops,
        vec![Coin::new(13, "abc"), Coin::new(1, "def")]
    );
    assert_eq!(pending_of(&store, "user-1"), vec![Coin::new(13, "abc"), Coin::new(1, "def")]);
    assert_eq!(pending_of(&store, "user-2"), vec![]);
}

#[test]
fn single_airdrop_request_that_fails_changes_nothing() {
    let mut store = collector();
    store.state.total_accumulated_airdrops = vec![Coin::new(u128::MAX, "abc")];
    let request = UpdateUserAirdropsRequest {
        user: "user-1".to_string(),
        pool_airdrops: vec![Coin::new(1, "abc")],
    };
    assert_eq!(update_user_airdrop(&mut store, &request), Err(ContractError::Overflow));
    assert_eq!(store.state.total_accumulated_airdrops, vec![Coin::new(u128::MAX, "abc")]);
    assert!(store.user_reward_info_map.may_load(&"user-1".to_string()).is_none());
}

fn register(store: &mut Store, id: &str, sic: &str, airdrops: Vec<String>) {
    try_register_strategy(
        store,
        &mock_env(),
        &mock_info("creator", vec![]),
        id.to_string(),
        Some(21),
        sic.to_string(),
        airdrops,
    )
    .unwrap();
}

#[test]
fn register_strategy_creates_inactive_strategy_with_zeroed_metadata() {
    let mut store = collector();
    register(&mut store, "sid1", "sic1", vec!["abc".to_string()]);
    let info = store.strategy_info_map.may_load(&"sid1".to_string()).unwrap();
    assert_eq!(info.name, "sid1");
    assert_eq!(info.sic_contract_address, "sic1");
    assert_eq!(info.unbonding_period, Some(21));
    assert_eq!(info.supported_airdrops, vec!["abc".to_string()]);
    assert!(!info.is_active);
    assert!(strategy_supports_airdrops(info));
    let metadata = store.strategy_metadata_map.may_load(&"sid1".to_string()).unwrap();
    assert_eq!(metadata.name, "sid1");
    assert_eq!(metadata.total_shares, Decimal::zero());
    assert_eq!(metadata.shares_per_token_ratio, Decimal::zero());
    assert_eq!(metadata.global_airdrop_pointer, vec![]);
    assert_eq!(metadata.total_airdrops_accumulated, vec![]);
    assert_eq!(metadata.current_unprocessed_undelegations, 0);
}

#[test]
fn register_strategy_twice_fails() {
    let mut store = collector();
    register(&mut store, "sid1", "sic1", vec![]);
    let err = try_register_strategy(
        &mut store,
        &mock_env(),
        &mock_info("creator", vec![]),
        "sid1".to_string(),
        None,
        "other".to_string(),
        vec![],
    )
    .unwrap_err();
    assert_eq!(err, ContractError::AlreadyExists(Record::StrategyInfo));
    assert_eq!(
        store.strategy_info_map.may_load(&"sid1".to_string()).unwrap().sic_contract_address,
        "sic1"
    );
}

#[test]
fn register_strategy_over_leftover_metadata_fails() {
    let mut store = collector();
    register(&mut store, "sid1", "sic1", vec![]);
    try_remove_strategy(&mut store, &mock_env(), &mock_info("creator", vec![]), "sid1".to_string())
        .unwrap();
    assert!(store.strategy_info_map.may_load(&"sid1".to_string()).is_none());
    assert!(store.strategy_metadata_map.may_load(&"sid1".to_string()).is_some());
    let err = try_register_strategy(
        &mut store,
        &mock_env(),
        &mock_info("creator", vec![]),
        "sid1".to_string(),
        None,
        "sic1".to_string(),
        vec![],
    )
    .unwrap_err();
    assert_eq!(err, ContractError::AlreadyExists(Record::StrategyMetadata));
}

#[test]
fn activate_sets_active_and_deactivate_clears_it() {
    let mut store = collector();
    let env = mock_env();
    let manager = mock_info("creator", vec![]);
    register(&mut store, "sid1", "sic1", vec![]);
    try_activate_strategy(&mut store, &env, &manager, "sid1".to_string()).unwrap();
    assert!(store.strategy_info_map.may_load(&"sid1".to_string()).unwrap().is_active);
    try_deactivate_strategy(&mut store, &env, &manager, "sid1".to_string()).unwrap();
    assert!(!store.strategy_info_map.may_load(&"sid1".to_string()).unwrap().is_active);
    assert_eq!(
        try_activate_strategy(&mut store, &env, &manager, "nope".to_string()),
        Err(ContractError::NotFound(Record::StrategyInfo))
    );
    assert_eq!(
        try_deactivate_strategy(&mut store, &env, &manager, "nope".to_string()),
        Err(ContractError::NotFound(Record::StrategyInfo))
    );
}

#[test]
fn remove_strategy_that_is_not_there_succeeds() {
    let mut store = collector();
    let res = try_remove_strategy(
        &mut store,
        &mock_env(),
        &mock_info("creator", vec![]),
        "nope".to_string(),
    );
    assert_eq!(res, Ok(Response::new()));
}

#[test]
fn commands_without_behaviour_are_not_implemented() {
    let mut store = collector();
    let env = mock_env();
    let anyone = mock_info("anyone", vec![]);
    assert_eq!(
        try_undelegate_rewards(&mut store, &env, &anyone, 5, "sid1".to_string()),
        Err(ContractError::NotImplemented)
    );
    assert_eq!(
        try_claim_airdrops(&mut store, &env, &anyone, "sid1".to_string()),
        Err(ContractError::NotImplemented)
    );
    assert_eq!(
        try_withdraw_rewards(&mut store, &env, &anyone, Timestamp::from_nanos(1), "s".to_string()),
        Err(ContractError::NotImplemented)
    );
    assert_eq!(try_withdraw_airdrops(&mut store, &env, &anyone), Err(ContractError::NotImplemented));
    assert_eq!(
        execute(&mut store, &no_answers(), &env, &anyone, ExecuteMsg::WithdrawAirdrops {}),
        Err(ContractError::NotImplemented)
    );
}

fn managed_commands() -> Vec<ExecuteMsg> {
    vec![
        ExecuteMsg::RegisterStrategy {
            strategy_id: "sid2".to_string(),
            unbonding_period: None,
            sic_contract_address: "sic2".to_string(),
            supported_airdrops: vec![],
        },
        ExecuteMsg::DeactivateStrategy { strategy_id: "sid1".to_string() },
        ExecuteMsg::ActivateStrategy { strategy_id: "sid1".to_string() },
        ExecuteMsg::RemoveStrategy { strategy_id: "sid1".to_string() },
        ExecuteMsg::UpdateUserRewards {
            update_user_rewards_requests: vec![UpdateUserRewardsRequest {
                user: "user-1".to_string(),
                strategy_id: "sid1".to_string(),
                rewards: 100,
            }],
        },
        ExecuteMsg::UpdateUserAirdrops { update_user_airdrops_requests: airdrop_requests() },
    ]
}

#[test]
fn unauthorized_caller_changes_nothing() {
    let mut store = collector();
    register(&mut store, "sid1", "sic1", vec![]);
    let before = query_state(&store).state.unwrap();
    for msg in managed_commands() {
        let err =
            execute(&mut store, &no_answers(), &mock_env(), &mock_info("not-creator", vec![]), msg)
                .unwrap_err();
        assert_eq!(err, ContractError::Unauthorized);
        assert_eq!(query_state(&store).state.unwrap(), before);
        assert!(store.strategy_info_map.may_load(&"sid2".to_string()).is_none());
        let info = store.strategy_info_map.may_load(&"sid1".to_string()).unwrap();
        assert!(!info.is_active);
        assert_eq!(store.user_reward_info_map.len(), 0);
        assert_eq!(
            store.strategy_metadata_map.may_load(&"sid1".to_string()).unwrap().total_shares,
            Decimal::zero()
        );
    }
}

fn reward(user: &str, strategy: &str, rewards: u128) -> UpdateUserRewardsRequest {
    UpdateUserRewardsRequest {
        user: user.to_string(),
        strategy_id: strategy.to_string(),
        rewards,
    }
}

fn answers(sic: &str, total: Option<u128>) -> Table<GetTotalTokensResponse> {
    let mut table = Table::new();
    table.save(sic.to_string(), GetTotalTokensResponse { total_tokens: total });
    table
}

#[test]
fn rewards_mint_shares_at_the_synced_rate() {
    let mut store = collector();
    let env = mock_env();
    let manager = mock_info("creator", vec![]);
    register(&mut store, "sid1", "sic1", vec![]);

    // the strategy holds nothing: one share a token
    let res = try_update_user_rewards(
        &mut store,
        &answers("sic1", None),
        &env,
        &manager,
        vec![reward("user-1", "sid1", 100)],
    )
    .unwrap();
    assert_eq!(
        res.messages,
        vec![CosmosMsg::TransferRewards {
            contract_addr: "sic1".to_string(),
            funds: Coin::new(100, "uluna"),
        }]
    );
    let metadata = store.strategy_metadata_map.may_load(&"sid1".to_string()).unwrap();
    assert_eq!(metadata.shares_per_token_ratio, Decimal::one());
    assert_eq!(metadata.total_shares, Decimal::raw(100 * ONE));
    assert_eq!(store.state.total_accumulated_rewards, 100);

    // the strategy has doubled its 100 tokens: half a share a token
    try_update_user_rewards(
        &mut store,
        &answers("sic1", Some(200)),
        &env,
        &manager,
        vec![reward("user-2", "sid1", 100)],
    )
    .unwrap();
    let metadata = store.strategy_metadata_map.may_load(&"sid1".to_string()).unwrap();
    assert_eq!(metadata.shares_per_token_ratio, Decimal::raw(ONE / 2));
    assert_eq!(metadata.total_shares, Decimal::raw(150 * ONE));
    assert_eq!(store.state.total_accumulated_rewards, 200);
    let first = store.user_reward_info_map.may_load(&"user-1".to_string()).unwrap();
    let second = store.user_reward_info_map.may_load(&"user-2".to_string()).unwrap();
    assert_eq!(first.strategies[0].shares, Decimal::raw(100 * ONE));
    assert_eq!(second.strategies[0].shares, Decimal::raw(50 * ONE));
    assert!(second.strategies[0].shares.atomics < first.strategies[0].shares.atomics);
}

#[test]
fn deposits_alone_keep_the_rate() {
    let mut store = collector();
    let env = mock_env();
    let manager = mock_info("creator", vec![]);
    register(&mut store, "sid1", "sic1", vec![]);
    let mut held: u128 = 0;
    let mut metadata = store.strategy_metadata_map.take(&"sid1".to_string()).unwrap();
    metadata.total_shares = Decimal::raw(7 * ONE + 3);
    store.strategy_metadata_map.save("sid1".to_string(), metadata);
    held += 3;
    let start = (7 * ONE + 3) / 3;
    for amount in [10_u128, 1, 250, 0, 99] {
        try_update_user_rewards(
            &mut store,
            &answers("sic1", Some(held)),
            &env,
            &manager,
            vec![reward("user-1", "sid1", amount)],
        )
        .unwrap();
        held += amount;
        let metadata = store.strategy_metadata_map.may_load(&"sid1".to_string()).unwrap();
        assert_eq!(metadata.shares_per_token_ratio, Decimal::raw(start));
        assert_eq!(metadata.total_shares.atomics / held, start);
        assert!(start * held <= metadata.total_shares.atomics);
        assert!(metadata.total_shares.atomics < (start + 1) * held);
    }
}

#[test]
fn rewards_for_an_unknown_strategy_are_skipped() {
    let mut store = collector();
    let env = mock_env();
    let manager = mock_info("creator", vec![]);
    register(&mut store, "sid1", "sic1", vec![]);
    let res = try_update_user_rewards(
        &mut store,
        &answers("sic1", Some(0)),
        &env,
        &manager,
        vec![reward("user-1", "nope", 40), reward("user-1", "sid1", 60), reward("user-2", "nope", 1)],
    )
    .unwrap();
    assert_eq!(res.messages.len(), 1);
    assert_eq!(store.state.total_accumulated_rewards, 60);
    assert!(store.user_reward_info_map.may_load(&"user-2".to_string()).is_none());
    let request = reward("user-1", "nope", 40);
    assert_eq!(
        update_user_reward(&mut store, &no_answers(), &request),
        Ok(RewardOutcome::Skipped(SkipReason::StrategyInfoMissing))
    );
    try_remove_strategy(&mut store, &env, &manager, "sid1".to_string()).unwrap();
    let request = reward("user-1", "sid1", 40);
    assert_eq!(
        update_user_reward(&mut store, &no_answers(), &request),
        Ok(RewardOutcome::Skipped(SkipReason::StrategyInfoMissing))
    );
    store.strategy_info_map.save(
        "sid9".to_string(),
        stader_contracts::scc::state::StrategyInfo {
            name: "sid9".to_string(),
            sic_contract_address: "sic9".to_string(),
            unbonding_period: None,
            supported_airdrops: vec![],
            is_active: true,
        },
    );
    let request = reward("user-1", "sid9", 40);
    assert_eq!(
        update_user_reward(&mut store, &no_answers(), &request),
        Ok(RewardOutcome::Skipped(SkipReason::StrategyMetadataMissing))
    );
}

#[test]
fn a_user_keeps_one_position_in_each_strategy() {
    let mut store = collector();
    let env = mock_env();
    let manager = mock_info("creator", vec![]);
    register(&mut store, "sid1", "sic1", vec![]);
    register(&mut store, "sid2", "sic2", vec![]);
    try_update_user_rewards(
        &mut store,
        &no_answers(),
        &env,
        &manager,
        vec![
            reward("user-1", "sid1", 10),
            reward("user-1", "sid2", 20),
            reward("user-1", "sid1", 30),
        ],
    )
    .unwrap();
    let user = store.user_reward_info_map.may_load(&"user-1".to_string()).unwrap();
    assert_eq!(user.strategies.len(), 2);
    assert_eq!(user.strategies[0].strategy_name, "sid1");
    assert_eq!(user.strategies[0].shares, Decimal::raw(40 * ONE));
    assert_eq!(user.strategies[1].strategy_name, "sid2");
    assert_eq!(user.strategies[1].shares, Decimal::raw(20 * ONE));
    assert_eq!(find_user_strategy(user, &"sid2".to_string()), Some(1));
    assert_eq!(find_user_strategy(user, &"sid3".to_string()), None);
    assert_eq!(get_user_strategy_data(user, &"sid2".to_string()), Some(&user.strategies[1]));
    assert_eq!(get_user_strategy_data(user, &"sid3".to_string()), None);
}

#[test]
fn a_new_position_starts_from_the_pointer_of_a_strategy_with_airdrops() {
    let mut store = collector();
    let env = mock_env();
    let manager = mock_info("creator", vec![]);
    register(&mut store, "with", "sic1", vec!["abc".to_string()]);
    register(&mut store, "without", "sic2", vec![]);
    for id in ["with", "without"] {
        let mut metadata = store.strategy_metadata_map.take(&id.to_string()).unwrap();
        metadata.global_airdrop_pointer = vec![DecCoin::new(Decimal::raw(3 * ONE), "abc")];
        store.strategy_metadata_map.save(id.to_string(), metadata);
    }
    try_update_user_rewards(
        &mut store,
        &no_answers(),
        &env,
        &manager,
        vec![reward("user-1", "with", 10), reward("user-1", "without", 10)],
    )
    .unwrap();
    let user = store.user_reward_info_map.may_load(&"user-1".to_string()).unwrap();
    assert_eq!(
        user.strategies[0].airdrop_pointer,
        vec![DecCoin::new(Decimal::raw(3 * ONE), "abc")]
    );
    assert_eq!(user.strategies[1].airdrop_pointer, vec![]);
}

#[test]
fn rewards_that_overflow_fail_and_leave_the_request_unapplied() {
    let mut store = collector();
    register(&mut store, "sid1", "sic1", vec![]);
    let request = reward("user-1", "sid1", u128::MAX);
    assert_eq!(
        update_user_reward(&mut store, &no_answers(), &request),
        Err(ContractError::Overflow)
    );
    assert_eq!(store.state.total_accumulated_rewards, 0);
    assert!(store.user_reward_info_map.may_load(&"user-1".to_string()).is_none());
    assert_eq!(
        store.strategy_metadata_map.may_load(&"sid1".to_string()).unwrap().shares_per_token_ratio,
        Decimal::zero()
    );
}

#[test]
fn sic_answers_default_to_no_total() {
    let table = answers("sic1", Some(7));
    assert_eq!(get_sic_total_tokens(&table, &"sic1".to_string()).total_tokens, Some(7));
    assert_eq!(get_sic_total_tokens(&table, &"sic2".to_string()).total_tokens, None);
}

#[test]
fn query_answers_with_the_state() {
    let store = collector();
    let res = query(&store, &mock_env(), QueryMsg::GetState {});
    assert_eq!(res.state.unwrap().manager, "creator");
}

#[test]
fn new_user_records_are_empty() {
    let record = UserRewardInfo::new();
    assert!(record.strategies.is_empty());
    assert!(record.pending_airdrops.is_empty());
    let position = UserStrategyInfo::new("sid1".to_string());
    assert_eq!(position.strategy_name, "sid1");
    assert_eq!(position.shares, Decimal::zero());
    assert!(position.airdrop_pointer.is_empty());
}
