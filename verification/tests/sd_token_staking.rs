use stader_contracts::decimal::Decimal;
use stader_contracts::error::{ContractError, Record, ScheduleViolation};
use stader_contracts::host::{BlockInfo, CosmosMsg, Env, MessageInfo, Response, Timestamp};
use stader_contracts::sd_token_staking::contract::{
    assert_new_schedules, bond, claim, compute_reward, compute_staker_reward,
    decrease_bond_amount, execute, increase_bond_amount, instantiate, migrate, query,
    query_config, query_staker_info, query_state, receive_cw20, unbond, update_config, withdraw,
};
use stader_contracts::sd_token_staking::msg::{
    Cw20HookMsg, Cw20ReceiveMsg, ExecuteMsg, InstantiateMsg, MigrateMsg, QueryMsg, QueryResponse,
    StateResponse,
};
use stader_contracts::sd_token_staking::state::{Config, Segment, StakerInfo, State, Store};

const WHOLE: u128 = 1_000_000_000_000_000_000;

fn at(seconds: u64) -> Env {
    Env { block: BlockInfo { height: 1, time: Timestamp::from_nanos(seconds * 1_000_000_000 + 7) } }
}

fn caller(sender: &str) -> MessageInfo {
    MessageInfo::new(sender, vec![])
}

fn pool(schedule: Vec<Segment>) -> Store {
    let msg = InstantiateMsg { sd_token: "token".to_string(), distribution_schedule: schedule };
    instantiate(&at(100), &caller("creator"), msg).0
}

fn staker(bond_amount: u128) -> StakerInfo {
    StakerInfo { reward_index: Decimal::zero(), bond_amount, pending_reward: 0 }
}

#[test]
fn staking_pool_starts_empty_at_the_time_of_its_block() {
    let msg = InstantiateMsg {
        sd_token: "token".to_string(),
        distribution_schedule: vec![(100, 200, 1000)],
    };
    let (store, res) = instantiate(&at(100), &caller("creator"), msg);
    assert_eq!(res, Response::new());
    assert_eq!(
        store.state,
        State { last_distributed: 100, total_bond_amount: 0, global_reward_index: Decimal::zero() }
    );
    assert_eq!(store.config.sd_token, "token");
    assert_eq!(store.config.distribution_schedule, vec![(100, 200, 1000)]);
    assert_eq!(store.staker_info.len(), 0);
}

#[test]
fn reward_is_rate_times_overlap_over_the_bonded_amount() {
    let config = Config { sd_token: "token".to_string(), distribution_schedule: vec![(100, 200, 1000)] };
    let mut state =
        State { last_distributed: 100, total_bond_amount: 100, global_reward_index: Decimal::zero() };
    // 10 a second for 50 seconds, over 100 bonded: 5 for each
    assert_eq!(compute_reward(&config, &mut state, 150), Ok(()));
    assert_eq!(
        state,
        State {
            last_distributed: 150,
            total_bond_amount: 100,
            global_reward_index: Decimal::raw(5 * WHOLE)
        }
    );
    // the segment ends at 200: 50 more seconds count, whatever the time
    assert_eq!(compute_reward(&config, &mut state, 900), Ok(()));
    assert_eq!(state.global_reward_index, Decimal::raw(10 * WHOLE));
    assert_eq!(state.last_distributed, 900);
    assert_eq!(compute_reward(&config, &mut state, 1000), Ok(()));
    assert_eq!(state.global_reward_index, Decimal::raw(10 * WHOLE));
}

#[test]
fn reward_adds_up_over_segments_and_clamps_to_their_bounds() {
    let config = Config {
        sd_token: "token".to_string(),
        distribution_schedule: vec![(0, 100, 1000), (150, 250, 300), (400, 500, 7), (120, 120, 9)],
    };
    let mut state =
        State { last_distributed: 90, total_bond_amount: 8, global_reward_index: Decimal::raw(1) };
    // first: 10 a second for 10 seconds; second: 3 a second for 50; third and fourth: nothing
    assert_eq!(compute_reward(&config, &mut state, 200), Ok(()));
    assert_eq!(state.global_reward_index, Decimal::raw(250 * WHOLE / 8 + 1));
    assert_eq!(state.last_distributed, 200);
}

#[test]
fn reward_rounds_the_rate_and_the_amount_down() {
    let config = Config { sd_token: "token".to_string(), distribution_schedule: vec![(0, 3, 10)] };
    let mut state =
        State { last_distributed: 0, total_bond_amount: 7, global_reward_index: Decimal::zero() };
    // the rate is 3.333333333333333333 a second; two seconds release 6
    assert_eq!(compute_reward(&config, &mut state, 2), Ok(()));
    assert_eq!(state.global_reward_index, Decimal::raw(857_142_857_142_857_142));
}

#[test]
fn with_nothing_bonded_only_the_time_moves() {
    let config = Config { sd_token: "token".to_string(), distribution_schedule: vec![(100, 200, 1000)] };
    let mut state =
        State { last_distributed: 100, total_bond_amount: 0, global_reward_index: Decimal::raw(3) };
    assert_eq!(compute_reward(&config, &mut state, 150), Ok(()));
    assert_eq!(
        state,
        State { last_distributed: 150, total_bond_amount: 0, global_reward_index: Decimal::raw(3) }
    );
}

#[test]
fn reward_that_overflows_changes_nothing() {
    let config =
        Config { sd_token: "token".to_string(), distribution_schedule: vec![(0, 1, u128::MAX)] };
    let start =
        State { last_distributed: 0, total_bond_amount: 1, global_reward_index: Decimal::zero() };
    let mut state = start;
    assert_eq!(compute_reward(&config, &mut state, 1), Err(ContractError::Overflow));
    assert_eq!(state, start);
    let config = Config {
        sd_token: "token".to_string(),
        distribution_schedule: vec![(0, 1, 1 << 67), (0, 1, 1 << 67), (0, 1, 1 << 67), (0, 1, 1 << 67)],
    };
    let mut state = start;
    // each rate fits and so does the sum; spread over the bonded token it does not
    assert_eq!(compute_reward(&config, &mut state, 1), Err(ContractError::Overflow));
    assert_eq!(state, start);
    let long: u64 = 1_000_000_000_000_000_000;
    let config = Config {
        sd_token: "token".to_string(),
        distribution_schedule: vec![(0, long, u128::MAX), (0, long, 1 << 100)],
    };
    let mut state = start;
    // each segment releases what fits; the two together do not
    assert_eq!(compute_reward(&config, &mut state, long), Err(ContractError::Overflow));
    assert_eq!(state, start);
}

#[test]
fn staker_reward_is_bond_times_advance_of_the_index() {
    let state = State {
        last_distributed: 0,
        total_bond_amount: 100,
        global_reward_index: Decimal::raw(2 * WHOLE),
    };
    let mut info =
        StakerInfo { reward_index: Decimal::raw(WHOLE / 2), bond_amount: 10, pending_reward: 3 };
    assert_eq!(compute_staker_reward(&state, &mut info), Ok(()));
    assert_eq!(
        info,
        StakerInfo { reward_index: Decimal::raw(2 * WHOLE), bond_amount: 10, pending_reward: 18 }
    );
    assert_eq!(compute_staker_reward(&state, &mut info), Ok(()));
    assert_eq!(info.pending_reward, 18);
}

#[test]
fn staker_index_ahead_of_the_pool_is_underflow() {
    let state =
        State { last_distributed: 0, total_bond_amount: 100, global_reward_index: Decimal::raw(1) };
    let start = StakerInfo { reward_index: Decimal::raw(2), bond_amount: 0, pending_reward: 3 };
    let mut info = start;
    assert_eq!(compute_staker_reward(&state, &mut info), Err(ContractError::Underflow));
    assert_eq!(info, start);
}

#[test]
fn staker_reward_that_overflows_changes_nothing() {
    let state = State {
        last_distributed: 0,
        total_bond_amount: 100,
        global_reward_index: Decimal::raw(2 * WHOLE),
    };
    let start =
        StakerInfo { reward_index: Decimal::zero(), bond_amount: u128::MAX, pending_reward: 0 };
    let mut info = start;
    assert_eq!(compute_staker_reward(&state, &mut info), Err(ContractError::Overflow));
    assert_eq!(info, start);
    let start = StakerInfo { reward_index: Decimal::zero(), bond_amount: 1, pending_reward: u128::MAX };
    let mut info = start;
    assert_eq!(compute_staker_reward(&state, &mut info), Err(ContractError::Overflow));
    assert_eq!(info, start);
}

#[test]
fn bond_amounts_go_up_and_down_together() {
    let mut state =
        State { last_distributed: 0, total_bond_amount: 100, global_reward_index: Decimal::zero() };
    let mut info = staker(10);
    assert_eq!(increase_bond_amount(&mut state, &mut info, 5), Ok(()));
    assert_eq!((state.total_bond_amount, info.bond_amount), (105, 15));
    assert_eq!(decrease_bond_amount(&mut state, &mut info, 15), Ok(()));
    assert_eq!((state.total_bond_amount, info.bond_amount), (90, 0));
    assert_eq!(decrease_bond_amount(&mut state, &mut info, 1), Err(ContractError::Underflow));
    assert_eq!(increase_bond_amount(&mut state, &mut info, u128::MAX), Err(ContractError::Overflow));
    assert_eq!((state.total_bond_amount, info.bond_amount), (90, 0));
}

#[test]
fn first_bond_makes_a_staker_record() {
    let mut store = pool(vec![(100, 200, 1000)]);
    assert_eq!(store.staker_info.len(), 0);
    assert_eq!(bond(&mut store, &at(110), "alice".to_string(), 50), Ok(Response::new()));
    assert_eq!(store.state.total_bond_amount, 50);
    assert_eq!(store.state.last_distributed, 110);
    assert_eq!(store.staker_info.may_load(&"alice".to_string()), Some(&staker(50)));
    // 10 a second for 40 seconds over 50 bonded
    assert_eq!(bond(&mut store, &at(150), "alice".to_string(), 50), Ok(Response::new()));
    assert_eq!(
        store.staker_info.may_load(&"alice".to_string()),
        Some(&StakerInfo {
            reward_index: Decimal::raw(8 * WHOLE),
            bond_amount: 100,
            pending_reward: 400
        })
    );
    assert_eq!(store.state.global_reward_index, Decimal::raw(8 * WHOLE));
    // who comes now earns nothing for the time before: 10 a second for 10 seconds over 100
    assert_eq!(bond(&mut store, &at(160), "bob".to_string(), 300), Ok(Response::new()));
    assert_eq!(
        store.staker_info.may_load(&"bob".to_string()),
        Some(&StakerInfo {
            reward_index: Decimal::raw(9 * WHOLE),
            bond_amount: 300,
            pending_reward: 0
        })
    );
    assert_eq!(store.state.total_bond_amount, 400);
    assert_eq!(store.staker_info.len(), 2);
}

#[test]
fn first_bond_that_overflows_makes_no_record() {
    let mut store = pool(vec![]);
    store.state.total_bond_amount = u128::MAX;
    assert_eq!(bond(&mut store, &at(110), "alice".to_string(), 1), Err(ContractError::Overflow));
    assert_eq!(store.staker_info.len(), 0);
    assert_eq!(store.state.total_bond_amount, u128::MAX);
    assert_eq!(store.state.last_distributed, 100);
    assert_eq!(StakerInfo::new(), staker(0));
}

#[test]
fn token_hook_bonds_for_the_sender_of_the_tokens() {
    let mut store = pool(vec![]);
    let hook = || Cw20ReceiveMsg {
        sender: "alice".to_string(),
        amount: 30,
        msg: Some(Cw20HookMsg::Bond {}),
    };
    assert_eq!(
        receive_cw20(&mut store, &at(110), &caller("alice"), hook()),
        Err(ContractError::Unauthorized)
    );
    assert_eq!(store.staker_info.may_load(&"alice".to_string()), None);
    let blank = Cw20ReceiveMsg { sender: "alice".to_string(), amount: 30, msg: None };
    assert_eq!(
        receive_cw20(&mut store, &at(110), &caller("token"), blank),
        Err(ContractError::SerializationError)
    );
    assert_eq!(
        execute(&mut store, &at(110), &caller("token"), ExecuteMsg::Receive(hook())),
        Ok(Response::new())
    );
    assert_eq!(store.staker_info.may_load(&"alice".to_string()), Some(&staker(30)));
    assert_eq!(store.state.total_bond_amount, 30);
}

#[test]
fn unbond_pays_back_and_drops_an_empty_record() {
    let mut store = pool(vec![]);
    store.state.total_bond_amount = 80;
    store.staker_info.save("alice".to_string(), staker(50));
    assert_eq!(
        unbond(&mut store, &at(110), &caller("alice"), 51),
        Err(ContractError::Underflow)
    );
    assert_eq!(
        unbond(&mut store, &at(110), &caller("bob"), 1),
        Err(ContractError::NotFound(Record::StakerInfo))
    );
    assert_eq!(store.state.last_distributed, 100);
    let res = unbond(&mut store, &at(110), &caller("alice"), 20).unwrap();
    assert_eq!(
        res.messages,
        vec![CosmosMsg::TokenTransfer {
            contract_addr: "token".to_string(),
            recipient: "alice".to_string(),
            amount: 20
        }]
    );
    assert_eq!(store.staker_info.may_load(&"alice".to_string()), Some(&staker(30)));
    assert_eq!(store.state.total_bond_amount, 60);
    assert_eq!(store.state.last_distributed, 110);
    unbond(&mut store, &at(120), &caller("alice"), 30).unwrap();
    assert_eq!(store.staker_info.may_load(&"alice".to_string()), None);
    assert_eq!(store.state.total_bond_amount, 30);
}

#[test]
fn unbond_keeps_a_record_with_rewards_waiting() {
    let mut store = pool(vec![(100, 200, 1000)]);
    store.state.total_bond_amount = 50;
    store.staker_info.save("alice".to_string(), staker(50));
    unbond(&mut store, &at(150), &caller("alice"), 50).unwrap();
    assert_eq!(
        store.staker_info.may_load(&"alice".to_string()),
        Some(&StakerInfo {
            reward_index: Decimal::raw(10 * WHOLE),
            bond_amount: 0,
            pending_reward: 500
        })
    );
    let res = withdraw(&mut store, &at(160), &caller("alice")).unwrap();
    assert_eq!(
        res.messages,
        vec![CosmosMsg::TokenTransfer {
            contract_addr: "token".to_string(),
            recipient: "alice".to_string(),
            amount: 500
        }]
    );
    assert_eq!(store.staker_info.may_load(&"alice".to_string()), None);
    assert_eq!(store.state.last_distributed, 160);
}

#[test]
fn unbond_from_a_pool_that_holds_less_is_underflow() {
    let mut store = pool(vec![]);
    store.state.total_bond_amount = 10;
    store.staker_info.save("alice".to_string(), staker(50));
    assert_eq!(unbond(&mut store, &at(110), &caller("alice"), 20), Err(ContractError::Underflow));
    assert_eq!(store.state.total_bond_amount, 10);
    assert_eq!(store.state.last_distributed, 100);
    assert_eq!(store.staker_info.may_load(&"alice".to_string()), Some(&staker(50)));
}

#[test]
fn withdraw_pays_what_waits_and_keeps_a_bonded_staker() {
    let mut store = pool(vec![(100, 200, 1000)]);
    store.state.total_bond_amount = 100;
    store.staker_info.save("alice".to_string(), staker(25));
    assert_eq!(withdraw(&mut store, &at(150), &caller("bob")), Err(ContractError::NotFound(Record::StakerInfo)));
    let res = execute(&mut store, &at(150), &caller("alice"), ExecuteMsg::Withdraw {}).unwrap();
    assert_eq!(
        res.messages,
        vec![CosmosMsg::TokenTransfer {
            contract_addr: "token".to_string(),
            recipient: "alice".to_string(),
            amount: 125
        }]
    );
    assert_eq!(
        store.staker_info.may_load(&"alice".to_string()),
        Some(&StakerInfo {
            reward_index: Decimal::raw(5 * WHOLE),
            bond_amount: 25,
            pending_reward: 0
        })
    );
}

#[test]
fn claim_is_not_implemented() {
    let mut store = pool(vec![]);
    assert_eq!(claim(&mut store, &at(110), &caller("alice"), 1), Err(ContractError::NotImplemented));
    assert_eq!(
        execute(&mut store, &at(110), &caller("alice"), ExecuteMsg::Claim { request_id: 1 }),
        Err(ContractError::NotImplemented)
    );
}

fn check(old: Vec<Segment>, new: Vec<Segment>, last_distributed: u64) -> Result<(), ContractError> {
    let config = Config { sd_token: "token".to_string(), distribution_schedule: old };
    let state =
        State { last_distributed, total_bond_amount: 0, global_reward_index: Decimal::zero() };
    assert_new_schedules(&config, &state, new)
}

#[test]
fn schedule_that_drops_a_started_segment_is_rejected() {
    let removes = Err(ContractError::InvalidSchedule(ScheduleViolation::RemovesStarted));
    let old = vec![(100, 200, 1000), (300, 400, 1000)];
    assert_eq!(check(old.clone(), vec![(300, 400, 1000)], 100), removes);
    assert_eq!(check(old.clone(), vec![(100, 200, 1000)], 300), removes);
    assert_eq!(check(old.clone(), vec![], 150), removes);
    // altered: the exact segment is gone
    assert_eq!(check(old.clone(), vec![(100, 200, 999), (300, 400, 1000)], 150), removes);
    assert_eq!(check(old.clone(), vec![(100, 201, 1000), (300, 400, 1000)], 150), removes);
    // twice before, once now
    assert_eq!(check(vec![(1, 2, 3), (1, 2, 3)], vec![(1, 2, 3)], 5), removes);
}

#[test]
fn schedule_that_appends_future_segments_is_accepted() {
    let old = vec![(100, 200, 1000), (300, 400, 1000)];
    assert_eq!(check(old.clone(), old.clone(), 350), Ok(()));
    assert_eq!(
        check(old.clone(), vec![(100, 200, 1000), (300, 400, 1000), (351, 400, 5), (500, 600, 1)], 350),
        Ok(())
    );
    // a segment that has not begun may go or change
    assert_eq!(check(old.clone(), vec![(100, 200, 1000)], 299), Ok(()));
    assert_eq!(check(old.clone(), vec![(300, 500, 7), (100, 200, 1000)], 299), Ok(()));
    assert_eq!(check(vec![], vec![], 0), Ok(()));
}

#[test]
fn schedule_that_adds_a_started_segment_is_rejected() {
    let adds = Err(ContractError::InvalidSchedule(ScheduleViolation::AddsStarted));
    let old = vec![(100, 200, 1000)];
    assert_eq!(check(old.clone(), vec![(100, 200, 1000), (150, 400, 5)], 150), adds);
    assert_eq!(check(old.clone(), vec![(100, 200, 1000), (100, 200, 1000)], 150), adds);
    assert_eq!(check(vec![], vec![(0, 1, 1)], 0), adds);
    // of two rules that are broken, removing is reported
    assert_eq!(
        check(old.clone(), vec![(150, 400, 5)], 150),
        Err(ContractError::InvalidSchedule(ScheduleViolation::RemovesStarted))
    );
}

#[test]
fn update_config_replaces_the_schedule_where_it_may() {
    let mut store = pool(vec![(100, 200, 1000)]);
    let err = update_config(&mut store, &at(110), &caller("anyone"), vec![(300, 400, 1)]);
    assert_eq!(err, Err(ContractError::InvalidSchedule(ScheduleViolation::RemovesStarted)));
    assert_eq!(store.config.distribution_schedule, vec![(100, 200, 1000)]);
    let new = vec![(300, 400, 1), (100, 200, 1000)];
    assert_eq!(
        execute(
            &mut store,
            &at(110),
            &caller("anyone"),
            ExecuteMsg::UpdateConfig { distribution_schedule: new.clone() }
        ),
        Ok(Response::new())
    );
    assert_eq!(store.config.distribution_schedule, new);
    assert_eq!(store.config.sd_token, "token");
}

#[test]
fn queries_preview_without_changing_anything() {
    let mut store = pool(vec![(100, 200, 1000)]);
    store.state.total_bond_amount = 100;
    store.staker_info.save("alice".to_string(), staker(25));
    let config = query_config(&store);
    assert_eq!(config.sd_token, "token");
    assert_eq!(config.distribution_schedule, vec![(100, 200, 1000)]);
    assert_eq!(
        query_state(&store, None),
        Ok(StateResponse {
            last_distributed: 100,
            total_bond_amount: 100,
            global_reward_index: Decimal::zero()
        })
    );
    assert_eq!(
        query_state(&store, Some(150)),
        Ok(StateResponse {
            last_distributed: 150,
            total_bond_amount: 100,
            global_reward_index: Decimal::raw(5 * WHOLE)
        })
    );
    let info = query_staker_info(&store, "alice".to_string(), Some(150)).unwrap();
    assert_eq!(info.staker, "alice");
    assert_eq!(info.reward_index, Decimal::raw(5 * WHOLE));
    assert_eq!(info.bond_amount, 25);
    assert_eq!(info.pending_reward, 125);
    let info = query_staker_info(&store, "alice".to_string(), None).unwrap();
    assert_eq!(info.pending_reward, 0);
    assert_eq!(
        query_staker_info(&store, "bob".to_string(), None),
        Err(ContractError::NotFound(Record::StakerInfo))
    );
    assert_eq!(store.state.last_distributed, 100);
    assert_eq!(store.staker_info.may_load(&"alice".to_string()), Some(&staker(25)));
    match query(&store, &at(0), QueryMsg::State { block_time: Some(200) }) {
        Ok(QueryResponse::State(state)) => {
            assert_eq!(state.global_reward_index, Decimal::raw(10 * WHOLE))
        }
        other => panic!("{:?}", other),
    }
    match query(&store, &at(0), QueryMsg::Config {}) {
        Ok(QueryResponse::Config(config)) => assert_eq!(config.sd_token, "token"),
        other => panic!("{:?}", other),
    }
    match query(&store, &at(0), QueryMsg::StakerInfo { staker: "alice".to_string(), block_time: None }) {
        Ok(QueryResponse::StakerInfo(info)) => assert_eq!(info.bond_amount, 25),
        other => panic!("{:?}", other),
    }
}

#[test]
fn migrate_changes_nothing() {
    let mut store = pool(vec![(100, 200, 1000)]);
    assert_eq!(migrate(&mut store, &at(500), MigrateMsg {}), Response::new());
    assert_eq!(store.state.last_distributed, 100);
    assert_eq!(store.config.distribution_schedule, vec![(100, 200, 1000)]);
}
