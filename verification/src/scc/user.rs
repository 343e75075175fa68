//! What a user is entitled to of the airdrops that a strategy has received.

use crate::balance::{
    Balance, amount_in, balance_covers, balance_difference, balance_fits, balance_scalable,
    balance_scaled, balance_sum, balance_whole, canonical, lemma_canonical_empty,
    lemma_scaled_balance, lemma_total_distinct, lemma_total_mapped, lemma_total_positive,
    lemma_whole_balance, total_of, whole_amount,
};
use crate::coin_utils::{
    Coin, CoinVecOp, DecCoin, DecCoinVecOp, Holding, Operation, clone_dec_coin_vector,
    coin_entries, coins_balance, dec_coin_entries, dec_coins_balance, dec_coins_holding,
    deccoin_vec_to_coin_vec, merge_coin_vector, merge_dec_coin_vector,
    multiply_deccoin_vector_with_decimal,
};
use crate::decimal::Decimal;
use crate::error::ContractError;
use crate::scc::state::{UserStrategyInfo, UserStrategyInfoView};
use vstd::prelude::*;

verus! {

/// What falls to `shares` shares when the strategy's pointer stands at
/// `global` and the user's at `user`: of each denomination the advance of
/// the pointer times the shares, in whole tokens, rounded down.
pub open spec fn entitlement(global: Balance, user: Balance, shares: Decimal) -> Balance {
    balance_whole(balance_scaled(balance_difference(global, user), shares))
}

/// What `get_user_airdrops` returns. Nothing where the strategy has
/// received no airdrop, and nothing where the user's pointer stands where
/// the strategy's does. `Underflow` where the user's pointer is ahead of
/// the strategy's in some denomination; `Overflow` where the strategy's
/// pointer, or an advance times the shares, needs more than 128 bits.
pub open spec fn user_airdrops(global: Balance, user: Balance, shares: Decimal) -> Result<
    Option<Balance>,
    ContractError,
> {
    if global == Map::<Seq<char>, nat>::empty() {
        Ok(None)
    } else if !balance_fits(global) {
        Err(ContractError::Overflow)
    } else if !balance_covers(global, user) {
        Err(ContractError::Underflow)
    } else if global == user {
        Ok(None)
    } else if !balance_scalable(balance_difference(global, user), shares) {
        Err(ContractError::Overflow)
    } else {
        Ok(Some(entitlement(global, user, shares)))
    }
}

/// The airdrops that fall to a user with `user_shares` shares in a
/// strategy since the pointer last stood at `user_airdrop_pointer`. What is
/// returned holds no denomination twice and none with amount zero.
pub fn get_user_airdrops(
    global_airdrop_pointer: &Vec<DecCoin>,
    user_airdrop_pointer: &Vec<DecCoin>,
    user_shares: Decimal,
) -> (result: Result<Option<Vec<Coin>>, ContractError>)
    ensures
        match result {
            Ok(Some(airdrops)) => user_airdrops(
                dec_coins_balance(global_airdrop_pointer@),
                dec_coins_balance(user_airdrop_pointer@),
                user_shares,
            ) == Ok::<Option<Balance>, ContractError>(Some(coins_balance(airdrops@))) && canonical(
                coin_entries(airdrops@),
            ),
            Ok(None) => user_airdrops(
                dec_coins_balance(global_airdrop_pointer@),
                dec_coins_balance(user_airdrop_pointer@),
                user_shares,
            ) == Ok::<Option<Balance>, ContractError>(None),
            Err(e) => user_airdrops(
                dec_coins_balance(global_airdrop_pointer@),
                dec_coins_balance(user_airdrop_pointer@),
                user_shares,
            ) == Err::<Option<Balance>, ContractError>(e),
        },
{
    let ghost global = dec_coins_balance(global_airdrop_pointer@);
    let ghost user = dec_coins_balance(user_airdrop_pointer@);
    let ghost nothing = Map::<Seq<char>, nat>::empty();
    let none: Vec<DecCoin> = Vec::new();
    assert(dec_coins_balance(none@) =~= nothing);
    let gathered = match merge_dec_coin_vector(
        global_airdrop_pointer,
        DecCoinVecOp { fund: none, operation: Operation::Add },
    ) {
        Ok(gathered) => gathered,
        Err(e) => {
            proof {
                assert(balance_sum(global, nothing) =~= global) by {
                    assert forall|d: Seq<char>| global.dom().contains(d) implies global[d] > 0 by {}
                }
                assert(global != nothing) by {
                    if global == nothing {
                        assert forall|d: Seq<char>| #[trigger]
                            amount_in(global, d) <= u128::MAX by {}
                    }
                }
            }
            return Err(e);
        },
    };
    proof {
        assert(balance_sum(global, nothing) =~= global) by {
            assert forall|d: Seq<char>| global.dom().contains(d) implies global[d] > 0 by {}
        }
        lemma_canonical_empty(dec_coin_entries(gathered@));
    }
    if gathered.len() == 0 {
        return Ok(None);
    }
    assert(global != nothing);
    let advance = match merge_dec_coin_vector(
        &gathered,
        DecCoinVecOp {
            fund: clone_dec_coin_vector(user_airdrop_pointer),
            operation: Operation::Sub,
        },
    ) {
        Ok(advance) => advance,
        Err(e) => {
            return Err(e);
        },
    };
    proof {
        lemma_canonical_empty(dec_coin_entries(advance@));
        if advance.len() == 0 {
            assert(global =~= user) by {
                assert forall|d: Seq<char>| amount_in(global, d) == amount_in(user, d) by {
                    assert(amount_in(user, d) <= amount_in(global, d));
                    assert(!balance_difference(global, user).dom().contains(d));
                }
            }
        } else {
            let d = dec_coin_entries(advance@)[0].0;
            assert(balance_difference(global, user).dom().contains(d));
            assert(amount_in(global, d) != amount_in(user, d));
        }
    }
    if advance.len() == 0 {
        return Ok(None);
    }
    proof {
        lemma_scaled_balance(dec_coin_entries(advance@), user_shares);
    }
    let share = match multiply_deccoin_vector_with_decimal(&advance, user_shares) {
        Ok(share) => share,
        Err(e) => {
            return Err(e);
        },
    };
    let whole = deccoin_vec_to_coin_vec(&share);
    let none: Vec<Coin> = Vec::new();
    proof {
        lemma_whole_balance(dec_coin_entries(share@));
        let entries = coin_entries(whole@);
        let held = coins_balance(whole@);
        assert(coins_balance(none@) =~= nothing);
        assert(balance_sum(held, nothing) =~= held) by {
            assert forall|d: Seq<char>| held.dom().contains(d) implies held[d] > 0 by {}
        }
        lemma_total_mapped(dec_coin_entries(share@), |a: nat| whole_amount(a), Seq::empty());
        assert forall|d: Seq<char>| #[trigger] amount_in(held, d) <= u128::MAX by {
            if total_of(entries, d) > 0 {
                lemma_total_positive(entries, d);
                let i = choose|i: int| 0 <= i < entries.len() && (#[trigger] entries[i]).0 == d;
                lemma_total_distinct(entries, i);
                assert(entries[i].1 == whole[i].amount);
            }
        }
    }
    match merge_coin_vector(whole, CoinVecOp { fund: none, operation: Operation::Add }) {
        Ok(airdrops) => Ok(Some(airdrops)),
        Err(e) => Err(e),
    }
}

/// A position once its airdrops have been settled against a strategy's
/// pointer at `global`: what falls to it, and the position with its pointer
/// moved up to the strategy's.
pub open spec fn settled(position: UserStrategyInfoView, global: Holding) -> Result<
    (UserStrategyInfoView, Balance),
    ContractError,
> {
    match user_airdrops(global.balance, position.airdrop_pointer.balance, position.shares) {
        Ok(Some(airdrops)) => Ok(
            (UserStrategyInfoView { airdrop_pointer: global, ..position }, airdrops),
        ),
        Ok(None) => Ok(
            (
                UserStrategyInfoView { airdrop_pointer: global, ..position },
                Map::<Seq<char>, nat>::empty(),
            ),
        ),
        Err(e) => Err(e),
    }
}

impl UserStrategyInfo {
    /// Settles the position's airdrops against the strategy's pointer:
    /// returns what falls to the position and moves its pointer up to the
    /// strategy's. A failure changes nothing.
    pub fn settle_airdrop(&mut self, global_airdrop_pointer: &Vec<DecCoin>) -> (result: Result<
        Vec<Coin>,
        ContractError,
    >)
        ensures
            match result {
                Ok(airdrops) => settled(old(self)@, dec_coins_holding(global_airdrop_pointer@))
                    == Ok::<(UserStrategyInfoView, Balance), ContractError>(
                    (final(self)@, coins_balance(airdrops@)),
                ) && canonical(coin_entries(airdrops@)),
                Err(e) => settled(old(self)@, dec_coins_holding(global_airdrop_pointer@)) == Err::<
                    (UserStrategyInfoView, Balance),
                    ContractError,
                >(e) && *final(self) == *old(self),
            },
    {
        let airdrops = match get_user_airdrops(
            global_airdrop_pointer,
            &self.airdrop_pointer,
            self.shares,
        ) {
            Ok(Some(airdrops)) => airdrops,
            Ok(None) => {
                let none: Vec<Coin> = Vec::new();
                assert(coins_balance(none@) =~= Map::<Seq<char>, nat>::empty());
                none
            },
            Err(e) => {
                return Err(e);
            },
        };
        self.airdrop_pointer = clone_dec_coin_vector(global_airdrop_pointer);
        Ok(airdrops)
    }
}

/// Settling twice in a row gives nothing the second time: once a position
/// has been settled against a pointer, settling it against the same pointer
/// again yields no airdrop and leaves it as it is.
pub proof fn lemma_settle_twice(position: UserStrategyInfoView, global: Holding)
    requires
        settled(position, global) is Ok,
    ensures
        settled(settled(position, global)->Ok_0.0, global) == Ok::<
            (UserStrategyInfoView, Balance),
            ContractError,
        >((settled(position, global)->Ok_0.0, Map::<Seq<char>, nat>::empty())),
{
    assert(balance_covers(global.balance, global.balance));
}

} // verus!
