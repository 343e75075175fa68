//! Look-ups that the collector's commands share.

use crate::decimal::Decimal;
use crate::host::Addr;
use crate::scc::state::{
    StrategyInfo, UserRewardInfo, UserRewardInfoView, UserStrategyInfo, UserStrategyInfoView,
};
use crate::sic_base::msg::GetTotalTokensResponse;
use crate::table::Table;
use vstd::prelude::*;

verus! {

/// What the investment contract at `sic_address` answers when asked for its
/// total tokens; no total where no answer is at hand.
pub open spec fn sic_answer(
    querier: Map<Seq<char>, Option<u128>>,
    sic_address: Seq<char>,
) -> Option<u128> {
    if querier.dom().contains(sic_address) {
        querier[sic_address]
    } else {
        None
    }
}

/// The tokens that the investment contract at `sic_address` holds: zero
/// where it names no total.
pub open spec fn sic_total_tokens(
    querier: Map<Seq<char>, Option<u128>>,
    sic_address: Seq<char>,
) -> u128 {
    match sic_answer(querier, sic_address) {
        Some(total) => total,
        None => 0,
    }
}

/// The answer of the investment contract at `sic_contract_address` to the
/// question for its total tokens, from the answers that were gathered.
pub fn get_sic_total_tokens(
    querier: &Table<GetTotalTokensResponse>,
    sic_contract_address: &Addr,
) -> (response: GetTotalTokensResponse)
    ensures
        response.total_tokens == sic_answer(querier@, sic_contract_address@),
{
    match querier.may_load(sic_contract_address) {
        Some(response) => *response,
        None => GetTotalTokensResponse { total_tokens: None },
    }
}

/// Whether airdrops are tracked for those invested in the strategy.
pub fn strategy_supports_airdrops(strategy_info: &StrategyInfo) -> (supports: bool)
    ensures
        supports == strategy_info@.supports_airdrops(),
{
    strategy_info.supported_airdrops.len() > 0
}

/// `i` is the first place at which `positions` holds one in `strategy`.
pub open spec fn first_at(
    positions: Seq<UserStrategyInfoView>,
    strategy: Seq<char>,
    i: int,
) -> bool {
    &&& 0 <= i < positions.len()
    &&& positions[i].strategy_name == strategy
    &&& forall|j: int| 0 <= j < i ==> (#[trigger] positions[j]).strategy_name != strategy
}

/// The first place at which `positions` holds one in `strategy`.
pub open spec fn position_of(positions: Seq<UserStrategyInfoView>, strategy: Seq<char>) -> Option<
    int,
> {
    if exists|i: int| first_at(positions, strategy, i) {
        Some(choose|i: int| first_at(positions, strategy, i))
    } else {
        None
    }
}

/// The shares that `user` holds in `strategy`.
pub open spec fn held_shares(user: UserRewardInfoView, strategy: Seq<char>) -> Decimal {
    match position_of(user.strategies, strategy) {
        Some(i) => user.strategies[i].shares,
        None => Decimal { atomics: 0 },
    }
}

/// There is at most one first place.
pub proof fn lemma_first_at_unique(
    positions: Seq<UserStrategyInfoView>,
    strategy: Seq<char>,
    i: int,
)
    requires
        first_at(positions, strategy, i),
    ensures
        position_of(positions, strategy) == Some(i),
{
    let j = choose|j: int| first_at(positions, strategy, j);
    if j < i {
        assert(positions[j].strategy_name != strategy);
    } else if i < j {
        assert(positions[i].strategy_name != strategy);
    }
}

/// The place of the user's position in the strategy, if there is one.
pub fn find_user_strategy(user_reward_info: &UserRewardInfo, strategy_id: &String) -> (found:
    Option<usize>)
    ensures
        match found {
            Some(i) => position_of(user_reward_info@.strategies, strategy_id@) == Some(i as int),
            None => position_of(user_reward_info@.strategies, strategy_id@) == None::<int>,
        },
{
    let ghost positions = user_reward_info@.strategies;
    let mut i: usize = 0;
    while i < user_reward_info.strategies.len()
        invariant
            i <= user_reward_info.strategies.len(),
            positions == user_reward_info@.strategies,
            forall|j: int| 0 <= j < i ==> (#[trigger] positions[j]).strategy_name != strategy_id@,
        decreases user_reward_info.strategies.len() - i,
    {
        if user_reward_info.strategies[i].strategy_name == *strategy_id {
            proof {
                assert(positions[i as int] == user_reward_info.strategies[i as int]@);
                assert(first_at(positions, strategy_id@, i as int));
                lemma_first_at_unique(positions, strategy_id@, i as int);
            }
            return Some(i);
        }
        proof {
            assert(positions[i as int] == user_reward_info.strategies[i as int]@);
        }
        i += 1;
    }
    proof {
        assert forall|k: int| !first_at(positions, strategy_id@, k) by {
            if 0 <= k < positions.len() {
                assert(positions[k].strategy_name != strategy_id@);
            }
        }
    }
    None
}

/// The user's position in the strategy, if there is one.
pub fn get_user_strategy_data<'a>(
    user_reward_info: &'a UserRewardInfo,
    strategy_id: &String,
) -> (found: Option<&'a UserStrategyInfo>)
    ensures
        match found {
            Some(position) => {
                &&& position_of(user_reward_info@.strategies, strategy_id@) is Some
                &&& position@ == user_reward_info@.strategies[position_of(
                    user_reward_info@.strategies,
                    strategy_id@,
                )->0]
            },
            None => position_of(user_reward_info@.strategies, strategy_id@) == None::<int>,
        },
{
    match find_user_strategy(user_reward_info, strategy_id) {
        Some(i) => Some(&user_reward_info.strategies[i]),
        None => None,
    }
}


/// Where some position is in `strategy`, there is a first one.
pub proof fn lemma_first_at_exists(
    positions: Seq<UserStrategyInfoView>,
    strategy: Seq<char>,
    k: int,
)
    requires
        0 <= k < positions.len(),
        positions[k].strategy_name == strategy,
    ensures
        position_of(positions, strategy) is Some,
    decreases k,
{
    if forall|j: int| 0 <= j < k ==> (#[trigger] positions[j]).strategy_name != strategy {
        assert(first_at(positions, strategy, k));
    } else {
        let j = choose|j: int| 0 <= j < k && (#[trigger] positions[j]).strategy_name == strategy;
        lemma_first_at_exists(positions, strategy, j);
    }
}

} // verus!
