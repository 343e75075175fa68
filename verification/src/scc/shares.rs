//! What the share accounting guarantees: deposits leave the exchange rate
//! alone, and rewards that a strategy earns lower it for those who come
//! after.

use crate::decimal::DECIMAL_FRACTIONAL;
use crate::error::ContractError;
use crate::scc::state::{StrategyMetadataView, exchange_rate};
use vstd::arithmetic::div_mod::{
    lemma_fundamental_div_mod, lemma_fundamental_div_mod_converse, lemma_mod_pos_bound,
};
use vstd::prelude::*;

verus! {

/// Adding tokens at the going rate leaves the rate as it is.
pub proof fn lemma_quotient_kept(shares: int, tokens: int, amount: int)
    requires
        shares >= 0,
        tokens > 0,
        amount >= 0,
    ensures
        (shares + (shares / tokens) * amount) / (tokens + amount) == shares / tokens,
        (shares + (shares / tokens) * amount) % (tokens + amount) == shares % tokens,
{
    let rate = shares / tokens;
    let rest = shares % tokens;
    lemma_fundamental_div_mod(shares, tokens);
    lemma_mod_pos_bound(shares, tokens);
    assert(shares + rate * amount == rate * (tokens + amount) + rest) by (nonlinear_arith)
        requires
            shares == tokens * rate + rest,
    ;
    lemma_fundamental_div_mod_converse(shares + rate * amount, tokens + amount, rate, rest);
}

/// More tokens against the same shares never raise the rate, and lower it
/// exactly if the shares that the old rate leaves over are fewer than the
/// old rate would mint for the tokens added.
pub proof fn lemma_quotient_lowered(shares: int, tokens: int, reward: int)
    requires
        shares >= 0,
        tokens > 0,
        reward >= 0,
    ensures
        shares / (tokens + reward) <= shares / tokens,
        (shares / (tokens + reward) < shares / tokens) == (shares % tokens < (shares / tokens)
            * reward),
{
    let old_rate = shares / tokens;
    let old_rest = shares % tokens;
    let new_rate = shares / (tokens + reward);
    let new_rest = shares % (tokens + reward);
    lemma_fundamental_div_mod(shares, tokens);
    lemma_mod_pos_bound(shares, tokens);
    lemma_fundamental_div_mod(shares, tokens + reward);
    lemma_mod_pos_bound(shares, tokens + reward);
    assert(new_rate <= old_rate) by (nonlinear_arith)
        requires
            shares == tokens * old_rate + old_rest,
            shares == (tokens + reward) * new_rate + new_rest,
            0 <= old_rest < tokens,
            0 <= new_rest,
            reward >= 0,
            tokens > 0,
            new_rate >= 0,
    ;
    if old_rest < old_rate * reward {
        assert(new_rate < old_rate) by (nonlinear_arith)
            requires
                shares == tokens * old_rate + old_rest,
                shares == (tokens + reward) * new_rate + new_rest,
                old_rest < old_rate * reward,
                0 <= new_rest,
                reward >= 0,
                tokens > 0,
        ;
    }
    if new_rate < old_rate {
        assert(old_rest < old_rate * reward) by (nonlinear_arith)
            requires
                shares == tokens * old_rate + old_rest,
                shares == (tokens + reward) * new_rate + new_rest,
                new_rest < tokens + reward,
                new_rate < old_rate,
                reward >= 0,
                tokens > 0,
        ;
    }
}

/// A strategy that holds no tokens has no shares out.
pub open spec fn backed(metadata: StrategyMetadataView, underlying: u128) -> bool {
    underlying == 0 ==> metadata.total_shares.atomics == 0
}

/// The state of a strategy that holds `underlying` tokens once `amount`
/// more have been deposited: the rate is brought up to date, then shares
/// are minted at it.
pub open spec fn deposit_call(
    metadata: StrategyMetadataView,
    underlying: u128,
    amount: u128,
) -> Result<StrategyMetadataView, ContractError> {
    metadata.synced(underlying).deposited(amount)
}

/// The state and the holdings of a strategy after one deposit for each of
/// `amounts`, in their order, with nothing else coming in between; nothing
/// where a number needs more than 128 bits on the way.
pub open spec fn after_deposits(
    metadata: StrategyMetadataView,
    underlying: u128,
    amounts: Seq<u128>,
) -> Option<(StrategyMetadataView, u128)>
    decreases amounts.len(),
{
    if amounts.len() == 0 {
        Some((metadata, underlying))
    } else {
        match after_deposits(metadata, underlying, amounts.drop_last()) {
            Some((earlier, held)) => match deposit_call(earlier, held, amounts.last()) {
                Ok(later) => if held + amounts.last() <= u128::MAX {
                    Some((later, (held + amounts.last()) as u128))
                } else {
                    None
                },
                Err(_) => None,
            },
            None => None,
        }
    }
}

/// One deposit into a backed strategy leaves it backed and at the rate it
/// had: what the new shares are against the new holdings is what the old
/// shares were against the old.
pub proof fn lemma_deposit_keeps_rate(
    metadata: StrategyMetadataView,
    underlying: u128,
    amount: u128,
)
    requires
        backed(metadata, underlying),
        deposit_call(metadata, underlying, amount) is Ok,
        underlying + amount <= u128::MAX,
    ensures
        backed(deposit_call(metadata, underlying, amount)->Ok_0, (underlying + amount) as u128),
        exchange_rate(
            deposit_call(metadata, underlying, amount)->Ok_0.total_shares,
            (underlying + amount) as u128,
        ) == exchange_rate(metadata.total_shares, underlying),
{
    let shares = metadata.total_shares.atomics as int;
    if underlying > 0 {
        lemma_quotient_kept(shares, underlying as int, amount as int);
    } else if amount > 0 {
        let one = DECIMAL_FRACTIONAL as int;
        assert((one * amount) / (amount as int) == one) by (nonlinear_arith)
            requires
                amount > 0,
        ;
    }
}

/// Deposits alone do not move the exchange rate. After any run of deposits
/// into a backed strategy, with no reward coming in between, the rate is
/// what it was at the start, and it accounts for all shares but a rest that
/// is smaller than one unit of 10^-18 for each token held: the shares
/// divided by the rate give the holdings, up to that rounding.
pub proof fn lemma_deposits_keep_rate(
    metadata: StrategyMetadataView,
    underlying: u128,
    amounts: Seq<u128>,
)
    requires
        backed(metadata, underlying),
        after_deposits(metadata, underlying, amounts) is Some,
    ensures
        ({
            let (later, held) = after_deposits(metadata, underlying, amounts)->0;
            let rate = exchange_rate(later.total_shares, held);
            &&& backed(later, held)
            &&& rate == exchange_rate(metadata.total_shares, underlying)
            &&& held > 0 ==> rate.atomics * held <= later.total_shares.atomics < (rate.atomics + 1)
                * held
        }),
    decreases amounts.len(),
{
    if amounts.len() > 0 {
        lemma_deposits_keep_rate(metadata, underlying, amounts.drop_last());
        let (earlier, before) = after_deposits(metadata, underlying, amounts.drop_last())->0;
        lemma_deposit_keeps_rate(earlier, before, amounts.last());
    }
    let (later, held) = after_deposits(metadata, underlying, amounts)->0;
    if held > 0 {
        let shares = later.total_shares.atomics as int;
        let rate = shares / (held as int);
        lemma_fundamental_div_mod(shares, held as int);
        lemma_mod_pos_bound(shares, held as int);
        assert(rate * held <= shares < (rate + 1) * held) by (nonlinear_arith)
            requires
                shares == held * rate + shares % (held as int),
                0 <= shares % (held as int) < held,
        ;
    }
}

/// Who comes later gets fewer shares. Two deposits of the same amount into
/// a backed strategy, a reward earned between them: the second never mints
/// more shares than the first, and it mints strictly fewer exactly if the
/// rest of shares that the first rate leaves over is smaller than what that
/// rate would mint for the reward. (A reward too small against the holdings
/// to move a rate of eighteen digits leaves the two alike.)
pub proof fn lemma_later_deposit_diluted(
    metadata: StrategyMetadataView,
    underlying: u128,
    amount: u128,
    reward: u128,
)
    requires
        backed(metadata, underlying),
        amount > 0,
        reward > 0,
        underlying + amount + reward <= u128::MAX,
        deposit_call(metadata, underlying, amount) is Ok,
    ensures
        ({
            let first = metadata.synced(underlying);
            let between = deposit_call(metadata, underlying, amount)->Ok_0;
            let second = between.synced((underlying + amount + reward) as u128);
            &&& second.minted(amount) is Ok
            &&& second.minted(amount)->Ok_0.atomics <= first.minted(amount)->Ok_0.atomics
            &&& (second.minted(amount)->Ok_0.atomics < first.minted(amount)->Ok_0.atomics) == (
            (between.total_shares.atomics as int) % ((underlying + amount) as int)
                < first.shares_per_token_ratio.atomics * reward)
        }),
{
    let first = metadata.synced(underlying);
    let between = deposit_call(metadata, underlying, amount)->Ok_0;
    let held = (underlying + amount) as int;
    let second = between.synced((held + reward) as u128);
    let shares = between.total_shares.atomics as int;
    let first_rate = first.shares_per_token_ratio.atomics as int;
    let second_rate = second.shares_per_token_ratio.atomics as int;
    lemma_deposit_keeps_rate(metadata, underlying, amount);
    assert(first_rate == shares / held);
    lemma_quotient_lowered(shares, held, reward as int);
    assert(second_rate <= first_rate);
    assert(second_rate * amount <= first_rate * amount) by (nonlinear_arith)
        requires
            second_rate <= first_rate,
            amount > 0,
    ;
    assert((second_rate * amount < first_rate * amount) == (second_rate < first_rate))
        by (nonlinear_arith)
        requires
            amount > 0,
    ;
}


/// Monotonic dilution: of two deposits of the same amount into a backed
/// strategy, a reward earned between them, the later mints strictly fewer
/// shares, provided that the reward is large enough to move the rate: the
/// rest of shares that the first rate leaves over must be smaller than what
/// that rate would mint for the reward.
pub proof fn lemma_later_deposit_mints_fewer(
    metadata: StrategyMetadataView,
    underlying: u128,
    amount: u128,
    reward: u128,
)
    requires
        backed(metadata, underlying),
        amount > 0,
        reward > 0,
        underlying + amount + reward <= u128::MAX,
        deposit_call(metadata, underlying, amount) is Ok,
        (deposit_call(metadata, underlying, amount)->Ok_0.total_shares.atomics as int) % ((
        underlying + amount) as int) < exchange_rate(metadata.total_shares, underlying).atomics
            * reward,
    ensures
        deposit_call(metadata, underlying, amount)->Ok_0.synced(
            (underlying + amount + reward) as u128,
        ).minted(amount) is Ok,
        deposit_call(metadata, underlying, amount)->Ok_0.synced(
            (underlying + amount + reward) as u128,
        ).minted(amount)->Ok_0.atomics < metadata.synced(underlying).minted(amount)->Ok_0.atomics,
{
    lemma_later_deposit_diluted(metadata, underlying, amount, reward);
}

} // verus!
