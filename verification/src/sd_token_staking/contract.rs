//! The staking pool's commands and questions.

use crate::decimal::{
    DECIMAL_FRACTIONAL, Decimal, checked_multiply_ratio, decimal_difference,
    decimal_subtraction_in_256, decimal_sum, decimal_summation_in_256, multiply_ratio,
};
use crate::error::{ContractError, Record, ScheduleViolation};
use crate::host::{Addr, CosmosMsg, CosmosMsgView, Env, MessageInfo, Response};
use crate::sd_token_staking::msg::{
    ConfigResponse, Cw20HookMsg, Cw20ReceiveMsg, Cw20ReceiveMsgView, ExecuteMsg, ExecuteMsgView,
    InstantiateMsg, MigrateMsg, QueryMsg, QueryResponse, StakerInfoResponse, StateResponse,
};
use crate::sd_token_staking::state::{
    Config, ConfigView, Segment, StakerInfo, State, Store, StoreView,
};
use crate::table::Table;
use vstd::arithmetic::div_mod::{
    lemma_div_is_ordered, lemma_div_multiples_vanish, lemma_fundamental_div_mod,
    lemma_mod_pos_bound,
};
use vstd::prelude::*;
use vstd::seq_lib::{
    lemma_multiset_commutative, to_multiset_build, to_multiset_contains, to_multiset_remove,
};

verus! {

/// How often `segment` occurs in `schedule`.
pub open spec fn count_of(schedule: Seq<Segment>, segment: Segment) -> nat {
    schedule.to_multiset().count(segment)
}

/// Some segment that had begun by `last_distributed` occurs less often in
/// `new` than in `old`: it was removed or altered.
pub open spec fn removes_started(
    old: Seq<Segment>,
    new: Seq<Segment>,
    last_distributed: u64,
) -> bool {
    exists|i: int|
        0 <= i < old.len() && (#[trigger] old[i]).0 <= last_distributed && count_of(new, old[i])
            < count_of(old, old[i])
}

/// Some segment that would have begun by `last_distributed` occurs more
/// often in `new` than in `old`: it was put in after the fact.
pub open spec fn adds_started(old: Seq<Segment>, new: Seq<Segment>, last_distributed: u64) -> bool {
    exists|j: int|
        0 <= j < new.len() && (#[trigger] new[j]).0 <= last_distributed && count_of(old, new[j])
            < count_of(new, new[j])
}

/// Whether `new` may take the place of `old` when rewards have been
/// released up to `last_distributed`: every segment that had begun by then
/// must occur in both exactly as often. Segments are the same only if
/// start, end and amount are all the same.
pub open spec fn schedule_check(
    old: Seq<Segment>,
    new: Seq<Segment>,
    last_distributed: u64,
) -> Result<(), ContractError> {
    if removes_started(old, new, last_distributed) {
        Err(ContractError::InvalidSchedule(ScheduleViolation::RemovesStarted))
    } else if adds_started(old, new, last_distributed) {
        Err(ContractError::InvalidSchedule(ScheduleViolation::AddsStarted))
    } else {
        Ok(())
    }
}

/// Counts how often `segment` occurs in `schedule`.
fn count_in(schedule: &Vec<Segment>, segment: &Segment) -> (count: usize)
    ensures
        count == count_of(schedule@, *segment),
{
    let mut count: usize = 0;
    let mut i: usize = 0;
    proof {
        assert(schedule@.take(0) =~= Seq::<Segment>::empty());
        to_multiset_contains(schedule@.take(0), *segment);
    }
    while i < schedule.len()
        invariant
            i <= schedule.len(),
            count <= i,
            count == count_of(schedule@.take(i as int), *segment),
        decreases schedule.len() - i,
    {
        proof {
            assert(schedule@.take(i + 1) =~= schedule@.take(i as int).push(schedule@[i as int]));
            to_multiset_build(schedule@.take(i as int), schedule@[i as int]);
        }
        if schedule[i].0 == segment.0 && schedule[i].1 == segment.1 && schedule[i].2 == segment.2 {
            count += 1;
        }
        i += 1;
    }
    assert(schedule@.take(schedule.len() as int) =~= schedule@);
    count
}

fn check_new_schedules(
    config: &Config,
    state: &State,
    distribution_schedule: &Vec<Segment>,
) -> (result: Result<(), ContractError>)
    ensures
        result == schedule_check(
            config.distribution_schedule@,
            distribution_schedule@,
            state.last_distributed,
        ),
{
    let old_schedule = &config.distribution_schedule;
    let last = state.last_distributed;
    let mut i: usize = 0;
    while i < old_schedule.len()
        invariant
            i <= old_schedule.len(),
            old_schedule == &config.distribution_schedule,
            last == state.last_distributed,
            forall|k: int|
                0 <= k < i ==> !((#[trigger] old_schedule@[k]).0 <= last && count_of(
                    distribution_schedule@,
                    old_schedule@[k],
                ) < count_of(old_schedule@, old_schedule@[k])),
        decreases old_schedule.len() - i,
    {
        if old_schedule[i].0 <= last && count_in(distribution_schedule, &old_schedule[i])
            < count_in(old_schedule, &old_schedule[i]) {
            return Err(ContractError::InvalidSchedule(ScheduleViolation::RemovesStarted));
        }
        i += 1;
    }
    let mut j: usize = 0;
    while j < distribution_schedule.len()
        invariant
            j <= distribution_schedule.len(),
            old_schedule == &config.distribution_schedule,
            last == state.last_distributed,
            !removes_started(old_schedule@, distribution_schedule@, last),
            forall|k: int|
                0 <= k < j ==> !((#[trigger] distribution_schedule@[k]).0 <= last && count_of(
                    old_schedule@,
                    distribution_schedule@[k],
                ) < count_of(distribution_schedule@, distribution_schedule@[k])),
        decreases distribution_schedule.len() - j,
    {
        if distribution_schedule[j].0 <= last && count_in(old_schedule, &distribution_schedule[j])
            < count_in(distribution_schedule, &distribution_schedule[j]) {
            return Err(ContractError::InvalidSchedule(ScheduleViolation::AddsStarted));
        }
        j += 1;
    }
    Ok(())
}

/// Checks that a new emission schedule does not rewrite the past, as
/// `schedule_check` says. Of two rules that are broken, the one against
/// removing is reported.
pub fn assert_new_schedules(
    config: &Config,
    state: &State,
    distribution_schedule: Vec<Segment>,
) -> (result: Result<(), ContractError>)
    ensures
        result == schedule_check(
            config.distribution_schedule@,
            distribution_schedule@,
            state.last_distributed,
        ),
{
    check_new_schedules(config, state, &distribution_schedule)
}

/// A schedule from which a segment that has begun is missing, or in which
/// it occurs less often than before, is rejected.
pub proof fn lemma_fewer_started_rejected(
    old: Seq<Segment>,
    new: Seq<Segment>,
    last_distributed: u64,
    segment: Segment,
)
    requires
        segment.0 <= last_distributed,
        count_of(new, segment) < count_of(old, segment),
    ensures
        schedule_check(old, new, last_distributed) == Err::<(), ContractError>(
            ContractError::InvalidSchedule(ScheduleViolation::RemovesStarted),
        ),
{
    to_multiset_contains(old, segment);
    let i = choose|i: int| 0 <= i < old.len() && old[i] == segment;
    assert(old[i].0 <= last_distributed && count_of(new, old[i]) < count_of(old, old[i]));
}

/// Dropping a segment that has begun is rejected: the schedule that lacks
/// one that started by `last_distributed`, and is otherwise the same, does
/// not pass.
pub proof fn lemma_dropping_started_rejected(old: Seq<Segment>, i: int, last_distributed: u64)
    requires
        0 <= i < old.len(),
        old[i].0 <= last_distributed,
    ensures
        schedule_check(old, old.remove(i), last_distributed) == Err::<(), ContractError>(
            ContractError::InvalidSchedule(ScheduleViolation::RemovesStarted),
        ),
{
    to_multiset_remove(old, i);
    to_multiset_contains(old, old[i]);
    assert(old.contains(old[i]));
    lemma_fewer_started_rejected(old, old.remove(i), last_distributed, old[i]);
}

/// Appending segments that have not begun is accepted: a schedule that
/// keeps all of the old one and adds only segments that start after
/// `last_distributed` passes.
pub proof fn lemma_appending_future_accepted(
    old: Seq<Segment>,
    added: Seq<Segment>,
    last_distributed: u64,
)
    requires
        forall|k: int| 0 <= k < added.len() ==> (#[trigger] added[k]).0 > last_distributed,
    ensures
        schedule_check(old, old + added, last_distributed) == Ok::<(), ContractError>(()),
{
    let new = old + added;
    lemma_multiset_commutative(old, added);
    assert forall|segment: Segment| segment.0 <= last_distributed implies count_of(new, segment)
        == count_of(old, segment) by {
        to_multiset_contains(added, segment);
        if added.contains(segment) {
            let k = choose|k: int| 0 <= k < added.len() && added[k] == segment;
            assert(added[k].0 > last_distributed);
        }
    }
    assert(!removes_started(old, new, last_distributed));
    assert(!adds_started(old, new, last_distributed));
}


/// The seconds of `segment` that lie between `from` and `to`.
pub open spec fn overlap(segment: Segment, from: u64, to: u64) -> nat {
    let start = if segment.0 > from {
        segment.0
    } else {
        from
    };
    let end = if segment.1 < to {
        segment.1
    } else {
        to
    };
    if end > start {
        (end - start) as nat
    } else {
        0
    }
}

/// What `segment` releases in a second, in units of 10^-18, rounded down.
pub open spec fn segment_rate(segment: Segment) -> nat {
    ((segment.2 * DECIMAL_FRACTIONAL) / (segment.1 - segment.0)) as nat
}

/// What `segment` releases between `from` and `to`: its rate times the
/// seconds of it that lie between them, in whole tokens, rounded down.
pub open spec fn segment_reward(segment: Segment, from: u64, to: u64) -> nat {
    if overlap(segment, from, to) == 0 {
        0
    } else {
        (segment_rate(segment) * overlap(segment, from, to)) / (DECIMAL_FRACTIONAL as nat)
    }
}

/// What `schedule` releases between `from` and `to`.
pub open spec fn released(schedule: Seq<Segment>, from: u64, to: u64) -> nat
    decreases schedule.len(),
{
    if schedule.len() == 0 {
        0
    } else {
        released(schedule.drop_last(), from, to) + segment_reward(schedule.last(), from, to)
    }
}

/// The rate of every segment that releases anything between `from` and
/// `to` fits in 128 bits.
pub open spec fn rates_fit(schedule: Seq<Segment>, from: u64, to: u64) -> bool {
    forall|i: int|
        0 <= i < schedule.len() && overlap(#[trigger] schedule[i], from, to) > 0 ==> segment_rate(
            schedule[i],
        ) <= u128::MAX
}

/// The pool once rewards have been released up to `block_time`. What the
/// schedule releases since the last time is spread over the bonded tokens
/// and added to the index; with nothing bonded only the time moves on.
/// `Overflow` where a rate, the amount released or the new index need more
/// than 128 bits.
pub open spec fn rewarded(schedule: Seq<Segment>, state: State, block_time: u64) -> Result<
    State,
    ContractError,
> {
    if state.total_bond_amount == 0 {
        Ok(State { last_distributed: block_time, ..state })
    } else if !rates_fit(schedule, state.last_distributed, block_time) || released(
        schedule,
        state.last_distributed,
        block_time,
    ) > u128::MAX {
        Err(ContractError::Overflow)
    } else {
        match Decimal::ratio(
            released(schedule, state.last_distributed, block_time) as u128,
            state.total_bond_amount,
        ) {
            Ok(advance) => match decimal_sum(state.global_reward_index, advance) {
                Ok(index) => Ok(
                    State { last_distributed: block_time, global_reward_index: index, ..state },
                ),
                Err(_) => Err(ContractError::Overflow),
            },
            Err(_) => Err(ContractError::Overflow),
        }
    }
}

fn overlap_of(segment: &Segment, from: u64, to: u64) -> (seconds: u64)
    ensures
        seconds == overlap(*segment, from, to),
{
    let start: u64 = if segment.0 > from {
        segment.0
    } else {
        from
    };
    let end: u64 = if segment.1 < to {
        segment.1
    } else {
        to
    };
    if end > start {
        end - start
    } else {
        0
    }
}

/// A segment never releases more than its amount.
proof fn lemma_reward_bounded(amount: int, duration: int, seconds: int)
    requires
        0 <= amount,
        0 < seconds <= duration,
    ensures
        (((amount * DECIMAL_FRACTIONAL) / duration) * seconds) / (DECIMAL_FRACTIONAL as int)
            <= amount,
{
    let one = DECIMAL_FRACTIONAL as int;
    let rate = (amount * one) / duration;
    lemma_fundamental_div_mod(amount * one, duration);
    lemma_mod_pos_bound(amount * one, duration);
    assert(rate * seconds <= amount * one) by (nonlinear_arith)
        requires
            amount * one == duration * rate + (amount * one) % duration,
            0 <= (amount * one) % duration,
            0 < seconds <= duration,
            0 <= amount,
            one > 0,
    ;
    lemma_div_is_ordered(rate * seconds, amount * one, one);
    lemma_div_multiples_vanish(amount, one);
}

fn segment_release(segment: &Segment, from: u64, to: u64) -> (result: Result<u128, ContractError>)
    ensures
        match result {
            Ok(amount) => amount == segment_reward(*segment, from, to) && (overlap(
                *segment,
                from,
                to,
            ) > 0 ==> segment_rate(*segment) <= u128::MAX),
            Err(e) => e == ContractError::Overflow && overlap(*segment, from, to) > 0
                && segment_rate(*segment) > u128::MAX,
        },
{
    let seconds = overlap_of(segment, from, to);
    if seconds == 0 {
        return Ok(0);
    }
    let duration: u64 = segment.1 - segment.0;
    let rate = match Decimal::from_ratio(segment.2, duration as u128) {
        Ok(rate) => rate,
        Err(_) => {
            return Err(ContractError::Overflow);
        },
    };
    proof {
        lemma_reward_bounded(segment.2 as int, duration as int, seconds as int);
    }
    match checked_multiply_ratio(rate.atomics, seconds as u128, DECIMAL_FRACTIONAL) {
        Ok(amount) => Ok(amount),
        Err(e) => Err(e),
    }
}

/// What a schedule releases grows with the schedule.
proof fn lemma_released_prefix(schedule: Seq<Segment>, k: int, from: u64, to: u64)
    requires
        0 <= k <= schedule.len(),
    ensures
        released(schedule.take(k), from, to) <= released(schedule, from, to),
    decreases schedule.len() - k,
{
    if k == schedule.len() {
        assert(schedule.take(k) =~= schedule);
    } else {
        lemma_released_prefix(schedule, k + 1, from, to);
        assert(schedule.take(k + 1).drop_last() =~= schedule.take(k));
    }
}

/// Releases rewards up to `block_time`, as `rewarded` says. A failure
/// changes nothing.
pub fn compute_reward(config: &Config, state: &mut State, block_time: u64) -> (result: Result<
    (),
    ContractError,
>)
    ensures
        match result {
            Ok(()) => rewarded(config.distribution_schedule@, *old(state), block_time) == Ok::<
                State,
                ContractError,
            >(*final(state)),
            Err(e) => rewarded(config.distribution_schedule@, *old(state), block_time) == Err::<
                State,
                ContractError,
            >(e) && *final(state) == *old(state),
        },
{
    if state.total_bond_amount == 0 {
        state.last_distributed = block_time;
        return Ok(());
    }
    let from = state.last_distributed;
    let ghost schedule = config.distribution_schedule@;
    let mut distributed_amount: u128 = 0;
    let mut i: usize = 0;
    assert(schedule.take(0) =~= Seq::<Segment>::empty());
    while i < config.distribution_schedule.len()
        invariant
            i <= config.distribution_schedule.len(),
            schedule == config.distribution_schedule@,
            from == state.last_distributed,
            *state == *old(state),
            state.total_bond_amount != 0,
            distributed_amount == released(schedule.take(i as int), from, block_time),
            rates_fit(schedule.take(i as int), from, block_time),
        decreases config.distribution_schedule.len() - i,
    {
        proof {
            assert(schedule.take(i + 1).drop_last() =~= schedule.take(i as int));
            lemma_released_prefix(schedule, i + 1, from, block_time);
        }
        let piece = match segment_release(&config.distribution_schedule[i], from, block_time) {
            Ok(piece) => piece,
            Err(e) => {
                return Err(e);
            },
        };
        distributed_amount = match distributed_amount.checked_add(piece) {
            Some(sum) => sum,
            None => {
                return Err(ContractError::Overflow);
            },
        };
        proof {
            assert forall|k: int|
                0 <= k < i + 1 && overlap(
                    #[trigger] schedule.take(i + 1)[k],
                    from,
                    block_time,
                ) > 0 implies segment_rate(schedule.take(i + 1)[k]) <= u128::MAX by {
                if k < i {
                    assert(schedule.take(i as int)[k] == schedule.take(i + 1)[k]);
                }
            }
        }
        i += 1;
    }
    assert(schedule.take(config.distribution_schedule.len() as int) =~= schedule);
    let advance = match Decimal::from_ratio(distributed_amount, state.total_bond_amount) {
        Ok(advance) => advance,
        Err(_) => {
            return Err(ContractError::Overflow);
        },
    };
    let index = match decimal_summation_in_256(state.global_reward_index, advance) {
        Ok(index) => index,
        Err(_) => {
            return Err(ContractError::Overflow);
        },
    };
    state.last_distributed = block_time;
    state.global_reward_index = index;
    Ok(())
}

/// A staker once the rewards released since the staker's index have been
/// settled: the bonded amount times the advance of the index, in whole
/// tokens, rounded down, is added to what waits. `Underflow` where the
/// staker's index is ahead of the pool's, which must never be;
/// `Overflow` where the reward or what waits needs more than 128 bits.
pub open spec fn staker_rewarded(state: State, staker: StakerInfo) -> Result<
    StakerInfo,
    ContractError,
> {
    match decimal_difference(state.global_reward_index, staker.reward_index) {
        Ok(advance) => match multiply_ratio(
            staker.bond_amount,
            advance.atomics,
            DECIMAL_FRACTIONAL,
        ) {
            Ok(reward) => if staker.pending_reward + reward > u128::MAX {
                Err(ContractError::Overflow)
            } else {
                Ok(
                    StakerInfo {
                        reward_index: state.global_reward_index,
                        pending_reward: (staker.pending_reward + reward) as u128,
                        ..staker
                    },
                )
            },
            Err(_) => Err(ContractError::Overflow),
        },
        Err(e) => Err(e),
    }
}

/// Settles the rewards released since the staker's index, as
/// `staker_rewarded` says. A failure changes nothing.
pub fn compute_staker_reward(state: &State, staker_info: &mut StakerInfo) -> (result: Result<
    (),
    ContractError,
>)
    ensures
        match result {
            Ok(()) => staker_rewarded(*state, *old(staker_info)) == Ok::<StakerInfo, ContractError>(
                *final(staker_info),
            ),
            Err(e) => staker_rewarded(*state, *old(staker_info)) == Err::<
                StakerInfo,
                ContractError,
            >(e) && *final(staker_info) == *old(staker_info),
        },
{
    let advance = match decimal_subtraction_in_256(
        state.global_reward_index,
        staker_info.reward_index,
    ) {
        Ok(advance) => advance,
        Err(e) => {
            return Err(e);
        },
    };
    let reward = match advance.multiply_amount(staker_info.bond_amount) {
        Ok(reward) => reward,
        Err(_) => {
            return Err(ContractError::Overflow);
        },
    };
    let pending_reward = match staker_info.pending_reward.checked_add(reward) {
        Some(sum) => sum,
        None => {
            return Err(ContractError::Overflow);
        },
    };
    staker_info.reward_index = state.global_reward_index;
    staker_info.pending_reward = pending_reward;
    Ok(())
}

/// The pool and a staker once `amount` more is bonded.
pub open spec fn bond_increased(state: State, staker: StakerInfo, amount: u128) -> Result<
    (State, StakerInfo),
    ContractError,
> {
    if state.total_bond_amount + amount > u128::MAX || staker.bond_amount + amount > u128::MAX {
        Err(ContractError::Overflow)
    } else {
        Ok(
            (
                State { total_bond_amount: (state.total_bond_amount + amount) as u128, ..state },
                StakerInfo { bond_amount: (staker.bond_amount + amount) as u128, ..staker },
            ),
        )
    }
}

/// The pool and a staker once `amount` less is bonded.
pub open spec fn bond_decreased(state: State, staker: StakerInfo, amount: u128) -> Result<
    (State, StakerInfo),
    ContractError,
> {
    if state.total_bond_amount < amount || staker.bond_amount < amount {
        Err(ContractError::Underflow)
    } else {
        Ok(
            (
                State { total_bond_amount: (state.total_bond_amount - amount) as u128, ..state },
                StakerInfo { bond_amount: (staker.bond_amount - amount) as u128, ..staker },
            ),
        )
    }
}

/// Adds `amount` to what the staker and the pool have bonded. `Overflow`,
/// and no change, where a sum needs more than 128 bits.
pub fn increase_bond_amount(
    state: &mut State,
    staker_info: &mut StakerInfo,
    amount: u128,
) -> (result: Result<(), ContractError>)
    ensures
        match result {
            Ok(()) => bond_increased(*old(state), *old(staker_info), amount) == Ok::<
                (State, StakerInfo),
                ContractError,
            >((*final(state), *final(staker_info))),
            Err(e) => bond_increased(*old(state), *old(staker_info), amount) == Err::<
                (State, StakerInfo),
                ContractError,
            >(e) && *final(state) == *old(state) && *final(staker_info) == *old(staker_info),
        },
{
    match (
        state.total_bond_amount.checked_add(amount),
        staker_info.bond_amount.checked_add(amount),
    ) {
        (Some(total), Some(bonded)) => {
            state.total_bond_amount = total;
            staker_info.bond_amount = bonded;
            Ok(())
        },
        _ => Err(ContractError::Overflow),
    }
}

/// Takes `amount` from what the staker and the pool have bonded.
/// `Underflow`, and no change, where either has less.
pub fn decrease_bond_amount(
    state: &mut State,
    staker_info: &mut StakerInfo,
    amount: u128,
) -> (result: Result<(), ContractError>)
    ensures
        match result {
            Ok(()) => bond_decreased(*old(state), *old(staker_info), amount) == Ok::<
                (State, StakerInfo),
                ContractError,
            >((*final(state), *final(staker_info))),
            Err(e) => bond_decreased(*old(state), *old(staker_info), amount) == Err::<
                (State, StakerInfo),
                ContractError,
            >(e) && *final(state) == *old(state) && *final(staker_info) == *old(staker_info),
        },
{
    match (
        state.total_bond_amount.checked_sub(amount),
        staker_info.bond_amount.checked_sub(amount),
    ) {
        (Some(total), Some(bonded)) => {
            state.total_bond_amount = total;
            staker_info.bond_amount = bonded;
            Ok(())
        },
        _ => Err(ContractError::Underflow),
    }
}


/// How a command ends: the store as it leaves it, and the messages or the
/// error that it returns.
pub struct Outcome {
    pub store: StoreView,
    pub result: Result<Seq<CosmosMsgView>, ContractError>,
}

/// The outcome that a store and a returned value make up.
pub open spec fn outcome_of(store: StoreView, result: Result<Response, ContractError>) -> Outcome {
    Outcome {
        store,
        result: match result {
            Ok(response) => Ok(response@),
            Err(e) => Err(e),
        },
    }
}

/// The outcome of a command that fails: the store is as it was.
pub open spec fn failed(store: StoreView, error: ContractError) -> Outcome {
    Outcome { store, result: Err(error) }
}

/// The store of a pool that has just been set up.
pub open spec fn instantiated(env: Env, sd_token: Seq<char>, schedule: Seq<Segment>) -> StoreView {
    StoreView {
        config: ConfigView { sd_token, distribution_schedule: schedule },
        state: State {
            last_distributed: env.block.time.nanos / 1_000_000_000,
            total_bond_amount: 0,
            global_reward_index: Decimal { atomics: 0 },
        },
        staker_info: Map::empty(),
    }
}

/// Sets the pool up: nothing is bonded, and rewards count from the time of
/// the block.
pub fn instantiate(env: &Env, _info: &MessageInfo, msg: InstantiateMsg) -> (made: (Store, Response))
    ensures
        made.0@ == instantiated(*env, msg.sd_token@, msg.distribution_schedule@),
        made.1@ == Seq::<CosmosMsgView>::empty(),
{
    let store = Store {
        config: Config { sd_token: msg.sd_token, distribution_schedule: msg.distribution_schedule },
        state: State {
            last_distributed: env.block.time.seconds(),
            total_bond_amount: 0,
            global_reward_index: Decimal::zero(),
        },
        staker_info: Table::new(),
    };
    (store, Response::new())
}

/// A staker and the pool with rewards released up to `now` and settled for
/// the staker.
pub open spec fn synced(store: StoreView, now: u64, staker: StakerInfo) -> Result<
    (State, StakerInfo),
    ContractError,
> {
    match rewarded(store.config.distribution_schedule, store.state, now) {
        Ok(state) => match staker_rewarded(state, staker) {
            Ok(staker) => Ok((state, staker)),
            Err(e) => Err(e),
        },
        Err(e) => Err(e),
    }
}

/// The record kept for `sender`: that of one who has bonded nothing where
/// none is kept.
pub open spec fn staker_record(store: StoreView, sender: Seq<char>) -> StakerInfo {
    if store.staker_info.dom().contains(sender) {
        store.staker_info[sender]
    } else {
        StakerInfo::unbonded()
    }
}

/// What `bond` does. Who bonds for the first time starts from the record of
/// one who has bonded nothing: settling it moves its index up to the
/// pool's, so that the amount earns nothing for the time before.
pub open spec fn bonded(store: StoreView, now: u64, sender: Seq<char>, amount: u128) -> Outcome {
    match synced(store, now, staker_record(store, sender)) {
        Ok((state, staker)) => match bond_increased(state, staker, amount) {
            Ok((state, staker)) => Outcome {
                store: StoreView {
                    state,
                    staker_info: store.staker_info.insert(sender, staker),
                    ..store
                },
                result: Ok(Seq::empty()),
            },
            Err(e) => failed(store, e),
        },
        Err(e) => failed(store, e),
    }
}

fn sync_staker(store: &Store, now: u64, staker_info: StakerInfo) -> (result: Result<
    (State, StakerInfo),
    ContractError,
>)
    ensures
        result == synced(store@, now, staker_info),
{
    let mut state = store.state;
    let mut staker_info = staker_info;
    match compute_reward(&store.config, &mut state, now) {
        Ok(()) => {},
        Err(e) => {
            return Err(e);
        },
    }
    match compute_staker_reward(&state, &mut staker_info) {
        Ok(()) => Ok((state, staker_info)),
        Err(e) => Err(e),
    }
}

/// Bonds `amount` for `sender_addr`: rewards are released up to the block's
/// time and settled for the staker, then the amount is added to what the
/// staker and the pool have bonded. A record is made for one who bonds for
/// the first time. A failure changes nothing.
pub fn bond(store: &mut Store, env: &Env, sender_addr: Addr, amount: u128) -> (result: Result<
    Response,
    ContractError,
>)
    ensures
        outcome_of(final(store)@, result) == bonded(
            old(store)@,
            env.block.time.nanos / 1_000_000_000,
            sender_addr@,
            amount,
        ),
        result is Err ==> *final(store) == *old(store),
{
    let staker_info = match store.staker_info.may_load(&sender_addr) {
        Some(staker_info) => *staker_info,
        None => StakerInfo::new(),
    };
    let (mut state, mut staker_info) = match sync_staker(
        store,
        env.block.time.seconds(),
        staker_info,
    ) {
        Ok(synced) => synced,
        Err(e) => {
            return Err(e);
        },
    };
    match increase_bond_amount(&mut state, &mut staker_info, amount) {
        Ok(()) => {},
        Err(e) => {
            return Err(e);
        },
    }
    store.staker_info.save(sender_addr, staker_info);
    store.state = state;
    Ok(Response::new())
}

/// The records of stakers with that of `sender` replaced by `staker`, or
/// dropped where `staker` has nothing bonded and nothing waiting.
pub open spec fn kept(
    stakers: Map<Seq<char>, StakerInfo>,
    sender: Seq<char>,
    staker: StakerInfo,
) -> Map<Seq<char>, StakerInfo> {
    if staker.pending_reward == 0 && staker.bond_amount == 0 {
        stakers.remove(sender)
    } else {
        stakers.insert(sender, staker)
    }
}

/// The message that has the token contract pay `amount` to `recipient`.
pub open spec fn payout(store: StoreView, recipient: Seq<char>, amount: u128) -> CosmosMsgView {
    CosmosMsgView::TokenTransfer { contract_addr: store.config.sd_token, recipient, amount }
}

/// What `unbond` does. Asking for more than the staker has bonded is
/// `Underflow`, before any reward is released.
pub open spec fn unbonded(store: StoreView, now: u64, sender: Seq<char>, amount: u128) -> Outcome {
    if !store.staker_info.dom().contains(sender) {
        failed(store, ContractError::NotFound(Record::StakerInfo))
    } else if store.staker_info[sender].bond_amount < amount {
        failed(store, ContractError::Underflow)
    } else {
        match synced(store, now, store.staker_info[sender]) {
            Ok((state, staker)) => match bond_decreased(state, staker, amount) {
                Ok((state, staker)) => Outcome {
                    store: StoreView {
                        state,
                        staker_info: kept(store.staker_info, sender, staker),
                        ..store
                    },
                    result: Ok(seq![payout(store, sender, amount)]),
                },
                Err(e) => failed(store, e),
            },
            Err(e) => failed(store, e),
        }
    }
}

fn keep_staker(store: &mut Store, sender: &Addr, staker_info: StakerInfo)
    ensures
        final(store)@ == (StoreView {
            staker_info: kept(old(store)@.staker_info, sender@, staker_info),
            ..old(store)@
        }),
{
    if staker_info.pending_reward == 0 && staker_info.bond_amount == 0 {
        store.staker_info.remove(sender);
    } else {
        store.staker_info.save(sender.clone(), staker_info);
    }
}

fn payout_response(store: &Store, recipient: &Addr, amount: u128) -> (response: Response)
    ensures
        response@ == seq![payout(store@, recipient@, amount)],
{
    let mut messages: Vec<CosmosMsg> = Vec::new();
    messages.push(
        CosmosMsg::TokenTransfer {
            contract_addr: store.config.sd_token.clone(),
            recipient: recipient.clone(),
            amount,
        },
    );
    let response = Response { messages };
    assert(response@ =~= seq![payout(store@, recipient@, amount)]);
    response
}

/// Unbonds `amount` for the caller: rewards are released up to the block's
/// time and settled for the staker, the amount is taken from what the
/// staker and the pool have bonded, and the token contract is asked to pay
/// it back. The record of a staker who is left with nothing is dropped. A
/// failure changes nothing.
pub fn unbond(store: &mut Store, env: &Env, info: &MessageInfo, amount: u128) -> (result: Result<
    Response,
    ContractError,
>)
    ensures
        outcome_of(final(store)@, result) == unbonded(
            old(store)@,
            env.block.time.nanos / 1_000_000_000,
            info.sender@,
            amount,
        ),
        result is Err ==> *final(store) == *old(store),
{
    let staker_info = match store.staker_info.may_load(&info.sender) {
        Some(staker_info) => *staker_info,
        None => {
            return Err(ContractError::NotFound(Record::StakerInfo));
        },
    };
    if staker_info.bond_amount < amount {
        return Err(ContractError::Underflow);
    }
    let (mut state, mut staker_info) = match sync_staker(
        store,
        env.block.time.seconds(),
        staker_info,
    ) {
        Ok(synced) => synced,
        Err(e) => {
            return Err(e);
        },
    };
    match decrease_bond_amount(&mut state, &mut staker_info, amount) {
        Ok(()) => {},
        Err(e) => {
            return Err(e);
        },
    }
    let response = payout_response(store, &info.sender, amount);
    keep_staker(store, &info.sender, staker_info);
    store.state = state;
    Ok(response)
}

/// Claiming has no behaviour yet: the command fails with `NotImplemented`
/// and changes nothing.
pub fn claim(store: &mut Store, _env: &Env, _info: &MessageInfo, _request_id: u64) -> (result:
    Result<Response, ContractError>)
    ensures
        result matches Err(ContractError::NotImplemented),
        *final(store) == *old(store),
{
    Err(ContractError::NotImplemented)
}

/// What `withdraw` does.
pub open spec fn withdrawn(store: StoreView, now: u64, sender: Seq<char>) -> Outcome {
    if !store.staker_info.dom().contains(sender) {
        failed(store, ContractError::NotFound(Record::StakerInfo))
    } else {
        match synced(store, now, store.staker_info[sender]) {
            Ok((state, staker)) => Outcome {
                store: StoreView {
                    state,
                    staker_info: kept(
                        store.staker_info,
                        sender,
                        StakerInfo { pending_reward: 0, ..staker },
                    ),
                    ..store
                },
                result: Ok(seq![payout(store, sender, staker.pending_reward)]),
            },
            Err(e) => failed(store, e),
        }
    }
}

/// Pays the caller the rewards that wait: rewards are released up to the
/// block's time and settled for the staker, and the token contract is asked
/// to pay all that waits. The record of a staker who has nothing bonded is
/// dropped. A failure changes nothing.
pub fn withdraw(store: &mut Store, env: &Env, info: &MessageInfo) -> (result: Result<
    Response,
    ContractError,
>)
    ensures
        outcome_of(final(store)@, result) == withdrawn(
            old(store)@,
            env.block.time.nanos / 1_000_000_000,
            info.sender@,
        ),
        result is Err ==> *final(store) == *old(store),
{
    let staker_info = match store.staker_info.may_load(&info.sender) {
        Some(staker_info) => *staker_info,
        None => {
            return Err(ContractError::NotFound(Record::StakerInfo));
        },
    };
    let (state, mut staker_info) = match sync_staker(store, env.block.time.seconds(), staker_info) {
        Ok(synced) => synced,
        Err(e) => {
            return Err(e);
        },
    };
    let amount = staker_info.pending_reward;
    staker_info.pending_reward = 0;
    let response = payout_response(store, &info.sender, amount);
    keep_staker(store, &info.sender, staker_info);
    store.state = state;
    Ok(response)
}

/// What `update_config` does.
pub open spec fn config_updated(store: StoreView, schedule: Seq<Segment>) -> Outcome {
    match schedule_check(
        store.config.distribution_schedule,
        schedule,
        store.state.last_distributed,
    ) {
        Ok(()) => Outcome {
            store: StoreView {
                config: ConfigView { distribution_schedule: schedule, ..store.config },
                ..store
            },
            result: Ok(Seq::empty()),
        },
        Err(e) => failed(store, e),
    }
}

/// Puts a new emission schedule in place of the old, where it does not
/// rewrite the past. A failure changes nothing.
pub fn update_config(
    store: &mut Store,
    _env: &Env,
    _info: &MessageInfo,
    distribution_schedule: Vec<Segment>,
) -> (result: Result<Response, ContractError>)
    ensures
        outcome_of(final(store)@, result) == config_updated(old(store)@, distribution_schedule@),
        result is Err ==> *final(store) == *old(store),
{
    match check_new_schedules(&store.config, &store.state, &distribution_schedule) {
        Ok(()) => {},
        Err(e) => {
            return Err(e);
        },
    }
    store.config.distribution_schedule = distribution_schedule;
    Ok(Response::new())
}

/// What `receive_cw20` does: a hook that asks to bond bonds for the one who
/// sent the tokens, provided that the staked token's contract calls.
pub open spec fn received(
    store: StoreView,
    now: u64,
    sender: Seq<char>,
    msg: Cw20ReceiveMsgView,
) -> Outcome {
    match msg.msg {
        Some(Cw20HookMsg::Bond {  }) => if store.config.sd_token != sender {
            failed(store, ContractError::Unauthorized)
        } else {
            bonded(store, now, msg.sender, msg.amount)
        },
        None => failed(store, ContractError::SerializationError),
    }
}

/// Takes the token contract's notice of a transfer to the pool.
pub fn receive_cw20(
    store: &mut Store,
    env: &Env,
    info: &MessageInfo,
    cw20_msg: Cw20ReceiveMsg,
) -> (result: Result<Response, ContractError>)
    ensures
        outcome_of(final(store)@, result) == received(
            old(store)@,
            env.block.time.nanos / 1_000_000_000,
            info.sender@,
            cw20_msg@,
        ),
        result is Err ==> *final(store) == *old(store),
{
    match cw20_msg.msg {
        Some(Cw20HookMsg::Bond {  }) => {
            if store.config.sd_token != info.sender {
                return Err(ContractError::Unauthorized);
            }
            bond(store, env, cw20_msg.sender, cw20_msg.amount)
        },
        None => Err(ContractError::SerializationError),
    }
}

/// What `execute` does with each command.
pub open spec fn executed(
    store: StoreView,
    now: u64,
    sender: Seq<char>,
    msg: ExecuteMsgView,
) -> Outcome {
    match msg {
        ExecuteMsgView::Receive(msg) => received(store, now, sender, msg),
        ExecuteMsgView::Unbond { amount } => unbonded(store, now, sender, amount),
        ExecuteMsgView::Withdraw => withdrawn(store, now, sender),
        ExecuteMsgView::Claim { request_id } => failed(store, ContractError::NotImplemented),
        ExecuteMsgView::UpdateConfig { distribution_schedule } => config_updated(
            store,
            distribution_schedule,
        ),
    }
}

/// Carries out a command. A failure changes nothing.
pub fn execute(
    store: &mut Store,
    env: &Env,
    info: &MessageInfo,
    msg: ExecuteMsg,
) -> (result: Result<Response, ContractError>)
    ensures
        outcome_of(final(store)@, result) == executed(
            old(store)@,
            env.block.time.nanos / 1_000_000_000,
            info.sender@,
            msg@,
        ),
        result is Err ==> *final(store) == *old(store),
{
    match msg {
        ExecuteMsg::Receive(msg) => receive_cw20(store, env, info, msg),
        ExecuteMsg::Unbond { amount } => unbond(store, env, info, amount),
        ExecuteMsg::Withdraw {  } => withdraw(store, env, info),
        ExecuteMsg::Claim { request_id } => claim(store, env, info, request_id),
        ExecuteMsg::UpdateConfig { distribution_schedule } => update_config(
            store,
            env,
            info,
            distribution_schedule,
        ),
    }
}

/// A copy of the configuration.
pub fn query_config(store: &Store) -> (response: ConfigResponse)
    ensures
        response.sd_token@ == store.config.sd_token@,
        response.distribution_schedule@ == store.config.distribution_schedule@,
{
    let mut schedule: Vec<Segment> = Vec::new();
    let mut i: usize = 0;
    while i < store.config.distribution_schedule.len()
        invariant
            i <= store.config.distribution_schedule.len(),
            schedule@ == store.config.distribution_schedule@.take(i as int),
        decreases store.config.distribution_schedule.len() - i,
    {
        schedule.push(store.config.distribution_schedule[i]);
        assert(schedule@ =~= store.config.distribution_schedule@.take(i + 1));
        i += 1;
    }
    assert(store.config.distribution_schedule@.take(i as int)
        =~= store.config.distribution_schedule@);
    ConfigResponse { sd_token: store.config.sd_token.clone(), distribution_schedule: schedule }
}

/// The pool as it is, or as it would be with rewards released up to `block_time`.
pub open spec fn state_at(store: StoreView, block_time: Option<u64>) -> Result<
    State,
    ContractError,
> {
    match block_time {
        Some(now) => rewarded(store.config.distribution_schedule, store.state, now),
        None => Ok(store.state),
    }
}

/// The pool's state; with a `block_time`, as it would be with rewards
/// released up to then. Nothing is changed.
pub fn query_state(store: &Store, block_time: Option<u64>) -> (result: Result<
    StateResponse,
    ContractError,
>)
    ensures
        match result {
            Ok(response) => state_at(store@, block_time) == Ok::<State, ContractError>(
                State {
                    last_distributed: response.last_distributed,
                    total_bond_amount: response.total_bond_amount,
                    global_reward_index: response.global_reward_index,
                },
            ),
            Err(e) => state_at(store@, block_time) == Err::<State, ContractError>(e),
        },
{
    let mut state = store.state;
    if let Some(now) = block_time {
        match compute_reward(&store.config, &mut state, now) {
            Ok(()) => {},
            Err(e) => {
                return Err(e);
            },
        }
    }
    Ok(
        StateResponse {
            last_distributed: state.last_distributed,
            total_bond_amount: state.total_bond_amount,
            global_reward_index: state.global_reward_index,
        },
    )
}

/// A staker as recorded, or as the staker would be with rewards released
/// up to `block_time` and settled.
pub open spec fn staker_at(store: StoreView, staker: Seq<char>, block_time: Option<u64>) -> Result<
    StakerInfo,
    ContractError,
> {
    if !store.staker_info.dom().contains(staker) {
        Err(ContractError::NotFound(Record::StakerInfo))
    } else {
        match block_time {
            Some(now) => match synced(store, now, store.staker_info[staker]) {
                Ok((_, info)) => Ok(info),
                Err(e) => Err(e),
            },
            None => Ok(store.staker_info[staker]),
        }
    }
}

/// A staker's record; with a `block_time`, as it would be with rewards
/// released up to then and settled. Nothing is changed.
pub fn query_staker_info(store: &Store, staker: String, block_time: Option<u64>) -> (result: Result<
    StakerInfoResponse,
    ContractError,
>)
    ensures
        match result {
            Ok(response) => response.staker@ == staker@ && staker_at(store@, staker@, block_time)
                == Ok::<StakerInfo, ContractError>(
                StakerInfo {
                    reward_index: response.reward_index,
                    bond_amount: response.bond_amount,
                    pending_reward: response.pending_reward,
                },
            ),
            Err(e) => staker_at(store@, staker@, block_time) == Err::<StakerInfo, ContractError>(e),
        },
{
    let mut staker_info = match store.staker_info.may_load(&staker) {
        Some(staker_info) => *staker_info,
        None => {
            return Err(ContractError::NotFound(Record::StakerInfo));
        },
    };
    if let Some(now) = block_time {
        staker_info = match sync_staker(store, now, staker_info) {
            Ok((_, staker_info)) => staker_info,
            Err(e) => {
                return Err(e);
            },
        };
    }
    Ok(
        StakerInfoResponse {
            staker,
            reward_index: staker_info.reward_index,
            bond_amount: staker_info.bond_amount,
            pending_reward: staker_info.pending_reward,
        },
    )
}

/// Answers a question. Nothing is changed.
pub fn query(store: &Store, _env: &Env, msg: QueryMsg) -> (result: Result<
    QueryResponse,
    ContractError,
>)
    ensures
        match (msg, result) {
            (QueryMsg::Config {  }, Ok(QueryResponse::Config(response))) => response.sd_token@
                == store.config.sd_token@ && response.distribution_schedule@
                == store.config.distribution_schedule@,
            (QueryMsg::State { block_time }, Ok(QueryResponse::State(response))) => state_at(
                store@,
                block_time,
            ) == Ok::<State, ContractError>(
                State {
                    last_distributed: response.last_distributed,
                    total_bond_amount: response.total_bond_amount,
                    global_reward_index: response.global_reward_index,
                },
            ),
            (QueryMsg::State { block_time }, Err(e)) => state_at(store@, block_time) == Err::<
                State,
                ContractError,
            >(e),
            (
                QueryMsg::StakerInfo { staker, block_time },
                Ok(QueryResponse::StakerInfo(response)),
            ) => response.staker@ == staker@ && staker_at(store@, staker@, block_time) == Ok::<
                StakerInfo,
                ContractError,
            >(
                StakerInfo {
                    reward_index: response.reward_index,
                    bond_amount: response.bond_amount,
                    pending_reward: response.pending_reward,
                },
            ),
            (QueryMsg::StakerInfo { staker, block_time }, Err(e)) => staker_at(
                store@,
                staker@,
                block_time,
            ) == Err::<StakerInfo, ContractError>(e),
            _ => false,
        },
{
    match msg {
        QueryMsg::Config {  } => Ok(QueryResponse::Config(query_config(store))),
        QueryMsg::State { block_time } => match query_state(store, block_time) {
            Ok(response) => Ok(QueryResponse::State(response)),
            Err(e) => Err(e),
        },
        QueryMsg::StakerInfo { staker, block_time } => match query_staker_info(
            store,
            staker,
            block_time,
        ) {
            Ok(response) => Ok(QueryResponse::StakerInfo(response)),
            Err(e) => Err(e),
        },
    }
}

/// Takes the pool over to a new version of its code: there is nothing to do.
pub fn migrate(store: &mut Store, _env: &Env, _msg: MigrateMsg) -> (response: Response)
    ensures
        response@ == Seq::<CosmosMsgView>::empty(),
        *final(store) == *old(store),
{
    Response::new()
}


/// Releasing rewards moves the time on, leaves the bonded amount alone and
/// never lowers the index.
pub proof fn lemma_index_never_falls(schedule: Seq<Segment>, state: State, block_time: u64)
    requires
        rewarded(schedule, state, block_time) is Ok,
    ensures
        rewarded(schedule, state, block_time)->Ok_0.last_distributed == block_time,
        rewarded(schedule, state, block_time)->Ok_0.total_bond_amount == state.total_bond_amount,
        rewarded(schedule, state, block_time)->Ok_0.global_reward_index.atomics
            >= state.global_reward_index.atomics,
{
}

/// Settling never takes from what waits for a staker, and leaves the
/// bonded amount alone; and settling twice in a row adds nothing the second
/// time.
pub proof fn lemma_pending_reward_grows(state: State, staker: StakerInfo)
    requires
        staker_rewarded(state, staker) is Ok,
    ensures
        staker_rewarded(state, staker)->Ok_0.pending_reward >= staker.pending_reward,
        staker_rewarded(state, staker)->Ok_0.bond_amount == staker.bond_amount,
        staker_rewarded(state, staker)->Ok_0.reward_index == state.global_reward_index,
        staker_rewarded(state, staker_rewarded(state, staker)->Ok_0) == staker_rewarded(
            state,
            staker,
        ),
{
    let settled = staker_rewarded(state, staker)->Ok_0;
    assert((settled.bond_amount * 0) / (DECIMAL_FRACTIONAL as int) == 0) by (nonlinear_arith);
}

/// Who bonds for the first time earns nothing for the time before: the
/// record that is made holds the amount, has nothing waiting, and its index
/// stands where the pool's does once rewards are released up to the bond.
pub proof fn lemma_first_bond(store: StoreView, now: u64, sender: Seq<char>, amount: u128)
    requires
        !store.staker_info.dom().contains(sender),
        rewarded(store.config.distribution_schedule, store.state, now) is Ok,
        rewarded(store.config.distribution_schedule, store.state, now)->Ok_0.total_bond_amount
            + amount <= u128::MAX,
    ensures
        bonded(store, now, sender, amount).result == Ok::<Seq<CosmosMsgView>, ContractError>(
            Seq::empty(),
        ),
        bonded(store, now, sender, amount).store.staker_info == store.staker_info.insert(
            sender,
            StakerInfo {
                reward_index: rewarded(
                    store.config.distribution_schedule,
                    store.state,
                    now,
                )->Ok_0.global_reward_index,
                bond_amount: amount,
                pending_reward: 0,
            },
        ),
        bonded(store, now, sender, amount).store.state.total_bond_amount
            == store.state.total_bond_amount + amount,
{
    let state = rewarded(store.config.distribution_schedule, store.state, now)->Ok_0;
    assert((0 * state.global_reward_index.atomics) / (DECIMAL_FRACTIONAL as int) == 0)
        by (nonlinear_arith);
}

/// A schedule releases nothing over a span of no length, and nothing when
/// time runs backwards.
pub proof fn lemma_nothing_released_in_no_time(schedule: Seq<Segment>, from: u64, to: u64)
    requires
        to <= from,
    ensures
        released(schedule, from, to) == 0,
        rates_fit(schedule, from, to),
    decreases schedule.len(),
{
    if schedule.len() > 0 {
        lemma_nothing_released_in_no_time(schedule.drop_last(), from, to);
        assert forall|i: int| 0 <= i < schedule.len() implies overlap(
            #[trigger] schedule[i],
            from,
            to,
        ) == 0 by {}
    }
}

/// The amounts of all segments of a schedule together.
pub open spec fn total_amount(schedule: Seq<Segment>) -> nat
    decreases schedule.len(),
{
    if schedule.len() == 0 {
        0
    } else {
        total_amount(schedule.drop_last()) + schedule.last().2 as nat
    }
}

/// No schedule ever releases more than the amounts of its segments.
pub proof fn lemma_released_bounded(schedule: Seq<Segment>, from: u64, to: u64)
    ensures
        released(schedule, from, to) <= total_amount(schedule),
    decreases schedule.len(),
{
    if schedule.len() > 0 {
        lemma_released_bounded(schedule.drop_last(), from, to);
        let segment = schedule.last();
        if overlap(segment, from, to) > 0 {
            lemma_reward_bounded(
                segment.2 as int,
                segment.1 - segment.0,
                overlap(segment, from, to) as int,
            );
        }
    }
}

} // verus!
