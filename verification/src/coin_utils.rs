//! Coin vectors: sparse lists of (denomination, amount) pairs, and their
//! arithmetic. What a vector is worth is its balance, the total amount that
//! it holds of each denomination; the order of its entries and entries of
//! amount zero do not count.

use crate::balance::{
    Balance, amount_in, balance_covers, balance_difference, balance_fits, balance_of, balance_sum,
    canonical, distinct_denoms, entries_scalable, lemma_balance_equal,
    lemma_balance_sum_associative, lemma_balance_sum_commutative, lemma_canonical_empty,
    lemma_total_absent, lemma_total_distinct, lemma_total_positive, lemma_total_prefix,
    lemma_total_push, lemma_total_update, map_amounts, scaled_amount, total_of, whole_amount,
};
use crate::decimal::{Decimal, decimal_multiplication_in_256};
use crate::error::ContractError;
use vstd::prelude::*;

verus! {

/// An amount of whole tokens of one denomination.
#[derive(Clone, Debug, PartialEq, Eq)]
pub struct Coin {
    pub denom: String,
    pub amount: u128,
}

/// A fixed-point amount of one denomination.
#[derive(Clone, Debug, PartialEq, Eq)]
pub struct DecCoin {
    pub denom: String,
    pub amount: Decimal,
}

impl View for Coin {
    type V = (Seq<char>, nat);

    open spec fn view(&self) -> (Seq<char>, nat) {
        (self.denom@, self.amount as nat)
    }
}

impl View for DecCoin {
    type V = (Seq<char>, nat);

    /// The denomination and the amount in units of 10^-18.
    open spec fn view(&self) -> (Seq<char>, nat) {
        (self.denom@, self.amount.atomics as nat)
    }
}

impl Coin {
    pub fn new(amount: u128, denom: &str) -> (coin: Coin)
        ensures
            coin@ == (denom@, amount as nat),
    {
        Coin { denom: denom.to_owned(), amount }
    }
}

impl DecCoin {
    pub fn new(amount: Decimal, denom: &str) -> (coin: DecCoin)
        ensures
            coin@ == (denom@, amount.atomics as nat),
    {
        DecCoin { denom: denom.to_owned(), amount }
    }
}

/// Whether a fund is added to a coin vector or taken from it.
#[derive(Clone, Copy, Debug, PartialEq, Eq, Structural)]
pub enum Operation {
    Add,
    Sub,
}

/// A fund of whole tokens and what to do with it.
#[derive(Clone, Debug, PartialEq, Eq)]
pub struct CoinVecOp {
    pub fund: Vec<Coin>,
    pub operation: Operation,
}

/// A fund of fixed-point amounts and what to do with it.
#[derive(Clone, Debug, PartialEq, Eq)]
pub struct DecCoinVecOp {
    pub fund: Vec<DecCoin>,
    pub operation: Operation,
}

/// The entries of a vector of coins.
pub open spec fn coin_entries(coins: Seq<Coin>) -> Seq<(Seq<char>, nat)> {
    coins.map_values(|c: Coin| c@)
}

/// The entries of a vector of fixed-point coins, amounts in units of 10^-18.
pub open spec fn dec_coin_entries(coins: Seq<DecCoin>) -> Seq<(Seq<char>, nat)> {
    coins.map_values(|c: DecCoin| c@)
}

/// The balance of a vector of coins.
pub open spec fn coins_balance(coins: Seq<Coin>) -> Balance {
    balance_of(coin_entries(coins))
}

/// The balance of a vector of fixed-point coins, in units of 10^-18.
pub open spec fn dec_coins_balance(coins: Seq<DecCoin>) -> Balance {
    balance_of(dec_coin_entries(coins))
}

/// What a coin vector that is kept in a record holds: its balance, and
/// whether it is in canonical form, with no denomination twice and none
/// with amount zero. The order of its entries is no part of it.
pub struct Holding {
    pub balance: Balance,
    pub canonical: bool,
}

impl Holding {
    /// What an empty vector holds.
    pub open spec fn nothing() -> Holding {
        Holding { balance: Map::<Seq<char>, nat>::empty(), canonical: true }
    }
}

/// What a vector of coins holds.
pub open spec fn coins_holding(coins: Seq<Coin>) -> Holding {
    Holding { balance: coins_balance(coins), canonical: canonical(coin_entries(coins)) }
}

/// What a vector of fixed-point coins holds, in units of 10^-18.
pub open spec fn dec_coins_holding(coins: Seq<DecCoin>) -> Holding {
    Holding { balance: dec_coins_balance(coins), canonical: canonical(dec_coin_entries(coins)) }
}

/// An empty vector holds nothing.
pub proof fn lemma_empty_holds_nothing()
    ensures
        coins_holding(Seq::empty()) == Holding::nothing(),
        dec_coins_holding(Seq::empty()) == Holding::nothing(),
{
    assert(coins_balance(Seq::empty()) =~= Map::<Seq<char>, nat>::empty());
    assert(dec_coins_balance(Seq::empty()) =~= Map::<Seq<char>, nat>::empty());
}

/// The balance `b` merged into `a`. Adding fails with `Overflow` when a sum
/// needs more than 128 bits. Taking away fails with `Overflow` when `a` itself
/// does not fit, and with `Underflow` when `b` holds more of some denomination
/// than `a`: a difference is never rounded up to zero.
pub open spec fn merged(a: Balance, operation: Operation, b: Balance) -> Result<
    Balance,
    ContractError,
> {
    match operation {
        Operation::Add => if balance_fits(balance_sum(a, b)) {
            Ok(balance_sum(a, b))
        } else {
            Err(ContractError::Overflow)
        },
        Operation::Sub => if !balance_fits(a) {
            Err(ContractError::Overflow)
        } else if !balance_covers(a, b) {
            Err(ContractError::Underflow)
        } else {
            Ok(balance_difference(a, b))
        },
    }
}

/// The first entry of `coins` that carries `denom`.
fn find_denom(coins: &Vec<Coin>, denom: &String) -> (found: Option<usize>)
    ensures
        match found {
            Some(i) => i < coins.len() && coins[i as int].denom@ == denom@,
            None => forall|j: int| 0 <= j < coins.len() ==> coins[j].denom@ != denom@,
        },
{
    let mut i: usize = 0;
    while i < coins.len()
        invariant
            i <= coins.len(),
            forall|j: int| 0 <= j < i ==> coins[j].denom@ != denom@,
        decreases coins.len() - i,
    {
        if coins[i].denom == *denom {
            return Some(i);
        }
        i += 1;
    }
    None
}

/// Adds `amount` of `denom` to an accumulator in which no denomination
/// occurs twice.
fn credit(acc: &mut Vec<Coin>, denom: &String, amount: u128) -> (result: Result<(), ContractError>)
    requires
        distinct_denoms(coin_entries(old(acc)@)),
    ensures
        distinct_denoms(coin_entries(final(acc)@)),
        match result {
            Ok(()) => forall|d: Seq<char>|
                #[trigger] total_of(coin_entries(final(acc)@), d) == total_of(
                    coin_entries(old(acc)@),
                    d,
                ) + if d == denom@ {
                    amount as nat
                } else {
                    0nat
                },
            Err(e) => e == ContractError::Overflow && final(acc)@ == old(acc)@ && total_of(
                coin_entries(old(acc)@),
                denom@,
            ) + amount > u128::MAX,
        },
{
    let ghost before = coin_entries(acc@);
    match find_denom(acc, denom) {
        Some(i) => {
            proof {
                lemma_total_distinct(before, i as int);
            }
            match acc[i].amount.checked_add(amount) {
                Some(sum) => {
                    let replacement = Coin { denom: acc[i].denom.clone(), amount: sum };
                    acc.set(i, replacement);
                    proof {
                        let after = coin_entries(acc@);
                        assert(after =~= before.update(i as int, (before[i as int].0, sum as nat)));
                        assert forall|d: Seq<char>|
                            #[trigger] total_of(after, d) == total_of(before, d) + if d == denom@ {
                                amount as nat
                            } else {
                                0nat
                            } by {
                            lemma_total_update(before, i as int, sum as nat, d);
                        }
                    }
                    Ok(())
                },
                None => Err(ContractError::Overflow),
            }
        },
        None => {
            acc.push(Coin { denom: denom.clone(), amount });
            proof {
                let after = coin_entries(acc@);
                assert(after =~= before.push((denom@, amount as nat)));
                assert forall|d: Seq<char>|
                    #[trigger] total_of(after, d) == total_of(before, d) + if d == denom@ {
                        amount as nat
                    } else {
                        0nat
                    } by {
                    lemma_total_push(before, (denom@, amount as nat), d);
                }
            }
            Ok(())
        },
    }
}

/// Takes `amount` of `denom` from an accumulator in which no denomination
/// occurs twice.
fn debit(acc: &mut Vec<Coin>, denom: &String, amount: u128) -> (result: Result<(), ContractError>)
    requires
        distinct_denoms(coin_entries(old(acc)@)),
    ensures
        distinct_denoms(coin_entries(final(acc)@)),
        match result {
            Ok(()) => forall|d: Seq<char>|
                #[trigger] total_of(coin_entries(final(acc)@), d) + (if d == denom@ {
                    amount as nat
                } else {
                    0nat
                }) == total_of(coin_entries(old(acc)@), d),
            Err(e) => e == ContractError::Underflow && final(acc)@ == old(acc)@ && total_of(
                coin_entries(old(acc)@),
                denom@,
            ) < amount,
        },
{
    let ghost before = coin_entries(acc@);
    match find_denom(acc, denom) {
        Some(i) => {
            proof {
                lemma_total_distinct(before, i as int);
            }
            match acc[i].amount.checked_sub(amount) {
                Some(rest) => {
                    let replacement = Coin { denom: acc[i].denom.clone(), amount: rest };
                    acc.set(i, replacement);
                    proof {
                        let after = coin_entries(acc@);
                        assert(after =~= before.update(
                            i as int,
                            (before[i as int].0, rest as nat),
                        ));
                        assert forall|d: Seq<char>|
                            #[trigger] total_of(after, d) + (if d == denom@ {
                                amount as nat
                            } else {
                                0nat
                            }) == total_of(before, d) by {
                            lemma_total_update(before, i as int, rest as nat, d);
                        }
                    }
                    Ok(())
                },
                None => Err(ContractError::Underflow),
            }
        },
        None => {
            proof {
                lemma_total_absent(before, denom@);
            }
            if amount == 0 {
                Ok(())
            } else {
                Err(ContractError::Underflow)
            }
        },
    }
}

/// The entries of `acc` that hold something, in their order.
fn prune_zero(acc: Vec<Coin>) -> (kept: Vec<Coin>)
    requires
        distinct_denoms(coin_entries(acc@)),
    ensures
        canonical(coin_entries(kept@)),
        forall|d: Seq<char>|
            #[trigger] total_of(coin_entries(kept@), d) == total_of(coin_entries(acc@), d),
{
    let ghost all = coin_entries(acc@);
    let mut kept: Vec<Coin> = Vec::new();
    let mut i: usize = 0;
    while i < acc.len()
        invariant
            i <= acc.len(),
            all == coin_entries(acc@),
            distinct_denoms(all),
            canonical(coin_entries(kept@)),
            forall|k: int|
                0 <= k < kept.len() ==> exists|j: int|
                    0 <= j < i && all[j].0 == (#[trigger] coin_entries(kept@)[k]).0,
            forall|d: Seq<char>|
                #[trigger] total_of(coin_entries(kept@), d) == total_of(all.take(i as int), d),
        decreases acc.len() - i,
    {
        let ghost kept_before = coin_entries(kept@);
        proof {
            assert(all.take(i + 1) =~= all.take(i as int).push(all[i as int]));
        }
        if acc[i].amount != 0 {
            kept.push(Coin { denom: acc[i].denom.clone(), amount: acc[i].amount });
            proof {
                let kept_after = coin_entries(kept@);
                assert(kept_after =~= kept_before.push(all[i as int]));
                assert forall|d: Seq<char>|
                    #[trigger] total_of(kept_after, d) == total_of(all.take(i + 1), d) by {
                    lemma_total_push(kept_before, all[i as int], d);
                    lemma_total_push(all.take(i as int), all[i as int], d);
                }
                assert forall|k: int| 0 <= k < kept_after.len() implies exists|j: int|
                    0 <= j < i + 1 && all[j].0 == (#[trigger] kept_after[k]).0 by {
                    if k < kept_before.len() {
                        assert(kept_after[k] == kept_before[k]);
                        let j = choose|j: int| 0 <= j < i && all[j].0 == kept_before[k].0;
                        assert(0 <= j < i + 1 && all[j].0 == kept_after[k].0);
                    } else {
                        assert(all[i as int].0 == kept_after[k].0);
                    }
                }
                assert forall|a: int, b: int| 0 <= a < b < kept_after.len() implies (
                #[trigger] kept_after[a]).0 != (#[trigger] kept_after[b]).0 by {
                    if b < kept_before.len() {
                        assert(kept_after[a] == kept_before[a] && kept_after[b] == kept_before[b]);
                    } else {
                        assert(kept_after[a] == kept_before[a]);
                        let j = choose|j: int| 0 <= j < i && all[j].0 == kept_before[a].0;
                        assert(all[j].0 != all[i as int].0);
                    }
                }
                assert forall|k: int| 0 <= k < kept_after.len() implies (
                #[trigger] kept_after[k]).1 > 0 by {
                    if k < kept_before.len() {
                        assert(kept_after[k] == kept_before[k]);
                    }
                }
            }
        } else {
            proof {
                assert forall|d: Seq<char>|
                    #[trigger] total_of(kept_before, d) == total_of(all.take(i + 1), d) by {
                    lemma_total_push(all.take(i as int), all[i as int], d);
                }
            }
        }
        i += 1;
    }
    proof {
        assert(all.take(acc.len() as int) =~= all);
    }
    kept
}

/// Gathers `coins` into a vector in which no denomination occurs twice.
fn gather(coins: &Vec<Coin>) -> (result: Result<Vec<Coin>, ContractError>)
    ensures
        match result {
            Ok(acc) => distinct_denoms(coin_entries(acc@)) && forall|d: Seq<char>|
                #[trigger] total_of(coin_entries(acc@), d) == total_of(coin_entries(coins@), d),
            Err(e) => e == ContractError::Overflow && !balance_fits(coins_balance(coins@)),
        },
{
    let ghost all = coin_entries(coins@);
    let mut acc: Vec<Coin> = Vec::new();
    let mut i: usize = 0;
    while i < coins.len()
        invariant
            i <= coins.len(),
            all == coin_entries(coins@),
            distinct_denoms(coin_entries(acc@)),
            forall|d: Seq<char>|
                #[trigger] total_of(coin_entries(acc@), d) == total_of(all.take(i as int), d),
        decreases coins.len() - i,
    {
        proof {
            assert(all.take(i + 1) =~= all.take(i as int).push(all[i as int]));
        }
        match credit(&mut acc, &coins[i].denom, coins[i].amount) {
            Ok(()) => {
                proof {
                    assert forall|d: Seq<char>|
                        #[trigger] total_of(coin_entries(acc@), d) == total_of(
                            all.take(i + 1),
                            d,
                        ) by {
                        lemma_total_push(all.take(i as int), all[i as int], d);
                    }
                }
            },
            Err(e) => {
                proof {
                    let d = coins[i as int].denom@;
                    lemma_total_push(all.take(i as int), all[i as int], d);
                    lemma_total_prefix(all, i + 1, d);
                    assert(amount_in(coins_balance(coins@), d) > u128::MAX);
                }
                return Err(e);
            },
        }
        i += 1;
    }
    proof {
        assert(all.take(coins.len() as int) =~= all);
    }
    Ok(acc)
}

/// Merges `fund` into `coins` under `operation`.
fn merge_refs(coins: &Vec<Coin>, operation: Operation, fund: &Vec<Coin>) -> (result: Result<
    Vec<Coin>,
    ContractError,
>)
    ensures
        match result {
            Ok(sum) => merged(coins_balance(coins@), operation, coins_balance(fund@)) == Ok::<
                Balance,
                ContractError,
            >(coins_balance(sum@)) && canonical(coin_entries(sum@)),
            Err(e) => merged(coins_balance(coins@), operation, coins_balance(fund@)) == Err::<
                Balance,
                ContractError,
            >(e),
        },
{
    let ghost a = coin_entries(coins@);
    let ghost b = coin_entries(fund@);
    let mut acc = match gather(coins) {
        Ok(acc) => acc,
        Err(e) => {
            proof {
                let d = choose|d: Seq<char>| !(#[trigger] amount_in(balance_of(a), d) <= u128::MAX);
                assert(amount_in(balance_sum(balance_of(a), balance_of(b)), d) > u128::MAX);
            }
            return Err(e);
        },
    };
    proof {
        assert forall|d: Seq<char>| #[trigger] amount_in(balance_of(a), d) <= u128::MAX by {
            if total_of(a, d) > 0 {
                lemma_total_positive(coin_entries(acc@), d);
                let i = choose|i: int|
                    0 <= i < acc.len() && (#[trigger] coin_entries(acc@)[i]).0 == d;
                lemma_total_distinct(coin_entries(acc@), i);
            }
        }
    }
    let mut j: usize = 0;
    while j < fund.len()
        invariant
            j <= fund.len(),
            a == coin_entries(coins@),
            b == coin_entries(fund@),
            distinct_denoms(coin_entries(acc@)),
            balance_fits(balance_of(a)),
            operation == Operation::Add ==> forall|d: Seq<char>|
                #[trigger] total_of(coin_entries(acc@), d) == total_of(a, d) + total_of(
                    b.take(j as int),
                    d,
                ),
            operation == Operation::Sub ==> forall|d: Seq<char>|
                #[trigger] total_of(coin_entries(acc@), d) + total_of(b.take(j as int), d)
                    == total_of(a, d),
        decreases fund.len() - j,
    {
        proof {
            assert(b.take(j + 1) =~= b.take(j as int).push(b[j as int]));
            assert forall|d: Seq<char>|
                #[trigger] total_of(b.take(j + 1), d) == total_of(b.take(j as int), d) + if b[j as int].0
                    == d {
                    b[j as int].1
                } else {
                    0nat
                } by {
                lemma_total_push(b.take(j as int), b[j as int], d);
            }
        }
        let ghost acc_before = coin_entries(acc@);
        let step = match operation {
            Operation::Add => credit(&mut acc, &fund[j].denom, fund[j].amount),
            Operation::Sub => debit(&mut acc, &fund[j].denom, fund[j].amount),
        };
        match step {
            Ok(()) => {
                proof {
                    assert forall|d: Seq<char>|
                        operation == Operation::Add implies #[trigger] total_of(
                        coin_entries(acc@),
                        d,
                    ) == total_of(a, d) + total_of(b.take(j + 1), d) by {
                        assert(total_of(acc_before, d) == total_of(a, d) + total_of(
                            b.take(j as int),
                            d,
                        ));
                    }
                    assert forall|d: Seq<char>|
                        operation == Operation::Sub implies #[trigger] total_of(
                        coin_entries(acc@),
                        d,
                    ) + total_of(b.take(j + 1), d) == total_of(a, d) by {
                        assert(total_of(acc_before, d) + total_of(b.take(j as int), d) == total_of(
                            a,
                            d,
                        ));
                    }
                }
            },
            Err(e) => {
                proof {
                    let d = fund[j as int].denom@;
                    lemma_total_prefix(b, j + 1, d);
                    assert(total_of(b.take(j + 1), d) == total_of(b.take(j as int), d)
                        + b[j as int].1);
                    if operation == Operation::Add {
                        assert(total_of(acc_before, d) == total_of(a, d) + total_of(
                            b.take(j as int),
                            d,
                        ));
                        assert(amount_in(balance_sum(balance_of(a), balance_of(b)), d)
                            > u128::MAX);
                    } else {
                        assert(total_of(acc_before, d) + total_of(b.take(j as int), d) == total_of(
                            a,
                            d,
                        ));
                        assert(amount_in(balance_of(b), d) > amount_in(balance_of(a), d));
                    }
                }
                return Err(e);
            },
        }
        j += 1;
    }
    proof {
        assert(b.take(fund.len() as int) =~= b);
    }
    let ghost gathered = coin_entries(acc@);
    let sum = prune_zero(acc);
    proof {
        let s = coin_entries(sum@);
        assert forall|d: Seq<char>| #[trigger] total_of(s, d) <= u128::MAX by {
            if total_of(s, d) > 0 {
                lemma_total_positive(s, d);
                let i = choose|i: int| 0 <= i < s.len() && (#[trigger] s[i]).0 == d;
                lemma_total_distinct(s, i);
            }
        }
        if operation == Operation::Add {
            assert forall|d: Seq<char>|
                #[trigger] amount_in(balance_sum(balance_of(a), balance_of(b)), d)
                    <= u128::MAX by {
                assert(total_of(s, d) == total_of(gathered, d));
            }
            assert(balance_of(s) =~= balance_sum(balance_of(a), balance_of(b))) by {
                assert forall|d: Seq<char>|
                    total_of(s, d) == amount_in(balance_of(a), d) + amount_in(balance_of(b), d) by {
                    assert(total_of(s, d) == total_of(gathered, d));
                }
            }
        } else {
            assert forall|d: Seq<char>|
                #[trigger] amount_in(balance_of(b), d) <= amount_in(balance_of(a), d) by {
                assert(total_of(gathered, d) + total_of(b, d) == total_of(a, d));
            }
            assert(balance_of(s) =~= balance_difference(balance_of(a), balance_of(b))) by {
                assert forall|d: Seq<char>|
                    total_of(s, d) + amount_in(balance_of(b), d) == amount_in(balance_of(a), d) by {
                    assert(total_of(s, d) == total_of(gathered, d));
                }
            }
        }
    }
    Ok(sum)
}


/// Merges a fund of coins into a vector of coins, denomination by
/// denomination, whatever the order of either. The result holds no
/// denomination twice and none with amount zero.
pub fn merge_coin_vector(coins: Vec<Coin>, op: CoinVecOp) -> (result: Result<
    Vec<Coin>,
    ContractError,
>)
    ensures
        match result {
            Ok(sum) => merged(coins_balance(coins@), op.operation, coins_balance(op.fund@)) == Ok::<
                Balance,
                ContractError,
            >(coins_balance(sum@)) && canonical(coin_entries(sum@)),
            Err(e) => merged(coins_balance(coins@), op.operation, coins_balance(op.fund@)) == Err::<
                Balance,
                ContractError,
            >(e),
        },
{
    merge_refs(&coins, op.operation, &op.fund)
}

/// The same entries with the amounts counted in units of 10^-18.
fn to_atomic_coins(coins: &Vec<DecCoin>) -> (atomic: Vec<Coin>)
    ensures
        coin_entries(atomic@) == dec_coin_entries(coins@),
{
    let mut atomic: Vec<Coin> = Vec::new();
    let mut i: usize = 0;
    while i < coins.len()
        invariant
            i <= coins.len(),
            coin_entries(atomic@) == dec_coin_entries(coins@).take(i as int),
        decreases coins.len() - i,
    {
        let ghost before = atomic@;
        atomic.push(Coin { denom: coins[i].denom.clone(), amount: coins[i].amount.atomics });
        proof {
            let all = dec_coin_entries(coins@);
            assert(coin_entries(atomic@) =~= coin_entries(before).push(all[i as int]));
            assert(all.take(i + 1) =~= all.take(i as int).push(all[i as int]));
        }
        i += 1;
    }
    assert(dec_coin_entries(coins@).take(coins.len() as int) =~= dec_coin_entries(coins@));
    atomic
}

/// The same entries with the amounts read as units of 10^-18.
fn from_atomic_coins(atomic: &Vec<Coin>) -> (coins: Vec<DecCoin>)
    ensures
        dec_coin_entries(coins@) == coin_entries(atomic@),
{
    let mut coins: Vec<DecCoin> = Vec::new();
    let mut i: usize = 0;
    while i < atomic.len()
        invariant
            i <= atomic.len(),
            dec_coin_entries(coins@) == coin_entries(atomic@).take(i as int),
        decreases atomic.len() - i,
    {
        let ghost before = coins@;
        coins.push(
            DecCoin { denom: atomic[i].denom.clone(), amount: Decimal::raw(atomic[i].amount) },
        );
        proof {
            let all = coin_entries(atomic@);
            assert(dec_coin_entries(coins@) =~= dec_coin_entries(before).push(all[i as int]));
            assert(all.take(i + 1) =~= all.take(i as int).push(all[i as int]));
        }
        i += 1;
    }
    assert(coin_entries(atomic@).take(atomic.len() as int) =~= coin_entries(atomic@));
    coins
}

/// Merges a fund of fixed-point coins into a vector of them, as
/// `merge_coin_vector` does for whole tokens.
pub fn merge_dec_coin_vector(coins: &Vec<DecCoin>, op: DecCoinVecOp) -> (result: Result<
    Vec<DecCoin>,
    ContractError,
>)
    ensures
        match result {
            Ok(sum) => merged(dec_coins_balance(coins@), op.operation, dec_coins_balance(op.fund@))
                == Ok::<Balance, ContractError>(dec_coins_balance(sum@)) && canonical(
                dec_coin_entries(sum@),
            ),
            Err(e) => merged(dec_coins_balance(coins@), op.operation, dec_coins_balance(op.fund@))
                == Err::<Balance, ContractError>(e),
        },
{
    let a = to_atomic_coins(coins);
    let b = to_atomic_coins(&op.fund);
    match merge_refs(&a, op.operation, &b) {
        Ok(sum) => Ok(from_atomic_coins(&sum)),
        Err(e) => Err(e),
    }
}

/// A copy of a vector of coins.
pub fn clone_coin_vector(coins: &Vec<Coin>) -> (copy: Vec<Coin>)
    ensures
        coin_entries(copy@) == coin_entries(coins@),
{
    let mut copy: Vec<Coin> = Vec::new();
    let mut i: usize = 0;
    while i < coins.len()
        invariant
            i <= coins.len(),
            coin_entries(copy@) == coin_entries(coins@).take(i as int),
        decreases coins.len() - i,
    {
        let ghost before = copy@;
        copy.push(Coin { denom: coins[i].denom.clone(), amount: coins[i].amount });
        proof {
            let all = coin_entries(coins@);
            assert(coin_entries(copy@) =~= coin_entries(before).push(all[i as int]));
            assert(all.take(i + 1) =~= all.take(i as int).push(all[i as int]));
        }
        i += 1;
    }
    assert(coin_entries(coins@).take(coins.len() as int) =~= coin_entries(coins@));
    copy
}

/// A copy of a vector of fixed-point coins.
pub fn clone_dec_coin_vector(coins: &Vec<DecCoin>) -> (copy: Vec<DecCoin>)
    ensures
        dec_coin_entries(copy@) == dec_coin_entries(coins@),
{
    let atomic = to_atomic_coins(coins);
    from_atomic_coins(&atomic)
}

/// Multiplies every amount by `factor`, entry by entry, each product rounded
/// down to a multiple of 10^-18. Fails with `Overflow` as soon as one product
/// needs more than 128 bits.
pub fn multiply_deccoin_vector_with_decimal(coins: &Vec<DecCoin>, factor: Decimal) -> (result:
    Result<Vec<DecCoin>, ContractError>)
    ensures
        match result {
            Ok(scaled) => entries_scalable(dec_coin_entries(coins@), factor) && dec_coin_entries(
                scaled@,
            ) == map_amounts(dec_coin_entries(coins@), |a: nat| scaled_amount(a, factor)),
            Err(e) => e == ContractError::Overflow && !entries_scalable(
                dec_coin_entries(coins@),
                factor,
            ),
        },
{
    let ghost all = dec_coin_entries(coins@);
    let ghost target = map_amounts(all, |a: nat| scaled_amount(a, factor));
    let mut scaled: Vec<DecCoin> = Vec::new();
    let mut i: usize = 0;
    while i < coins.len()
        invariant
            i <= coins.len(),
            all == dec_coin_entries(coins@),
            target == map_amounts(all, |a: nat| scaled_amount(a, factor)),
            dec_coin_entries(scaled@) == target.take(i as int),
            forall|k: int| 0 <= k < i ==> scaled_amount((#[trigger] all[k]).1, factor) <= u128::MAX,
        decreases coins.len() - i,
    {
        match decimal_multiplication_in_256(coins[i].amount, factor) {
            Ok(product) => {
                let ghost before = scaled@;
                scaled.push(DecCoin { denom: coins[i].denom.clone(), amount: product });
                proof {
                    assert(target[i as int] == (all[i as int].0, product.atomics as nat));
                    assert(dec_coin_entries(scaled@) =~= dec_coin_entries(before).push(
                        target[i as int],
                    ));
                    assert(target.take(i + 1) =~= target.take(i as int).push(target[i as int]));
                }
            },
            Err(e) => {
                assert(scaled_amount(all[i as int].1, factor) > u128::MAX);
                return Err(ContractError::Overflow);
            },
        }
        i += 1;
    }
    assert(target.take(coins.len() as int) =~= target);
    Ok(scaled)
}

/// The whole tokens of every entry, the fraction dropped.
pub fn deccoin_vec_to_coin_vec(coins: &Vec<DecCoin>) -> (whole: Vec<Coin>)
    ensures
        coin_entries(whole@) == map_amounts(dec_coin_entries(coins@), |a: nat| whole_amount(a)),
{
    let ghost target = map_amounts(dec_coin_entries(coins@), |a: nat| whole_amount(a));
    let mut whole: Vec<Coin> = Vec::new();
    let mut i: usize = 0;
    while i < coins.len()
        invariant
            i <= coins.len(),
            target == map_amounts(dec_coin_entries(coins@), |a: nat| whole_amount(a)),
            coin_entries(whole@) == target.take(i as int),
        decreases coins.len() - i,
    {
        let ghost before = whole@;
        whole.push(Coin { denom: coins[i].denom.clone(), amount: coins[i].amount.to_uint_floor() });
        proof {
            assert(target[i as int] == (
                coins[i as int].denom@,
                whole_amount(coins[i as int].amount.atomics as nat),
            ));
            assert(coin_entries(whole@) =~= coin_entries(before).push(target[i as int]));
            assert(target.take(i + 1) =~= target.take(i as int).push(target[i as int]));
        }
        i += 1;
    }
    assert(target.take(coins.len() as int) =~= target);
    whole
}

/// Whether two vectors of coins have the same balance. Two vectors neither
/// of which fits in 128 bits per denomination cannot be told apart.
pub fn check_equal_vec(a: &Vec<Coin>, b: &Vec<Coin>) -> (result: Result<bool, ContractError>)
    ensures
        match result {
            Ok(equal) => equal == (coins_balance(a@) == coins_balance(b@)) && (balance_fits(
                coins_balance(a@),
            ) || balance_fits(coins_balance(b@))),
            Err(e) => e == ContractError::Overflow && !balance_fits(coins_balance(a@))
                && !balance_fits(coins_balance(b@)),
        },
{
    let ghost balance_a = coins_balance(a@);
    let ghost balance_b = coins_balance(b@);
    match merge_refs(a, Operation::Sub, b) {
        Ok(rest) => {
            proof {
                let ea = coin_entries(a@);
                let eb = coin_entries(b@);
                let er = coin_entries(rest@);
                lemma_canonical_empty(er);
                assert(balance_difference(balance_a, balance_b) == balance_of(er));
                if rest.len() == 0 {
                    assert forall|d: Seq<char>| #[trigger] total_of(ea, d) == total_of(eb, d) by {
                        assert(amount_in(balance_b, d) <= amount_in(balance_a, d));
                        assert(!balance_difference(balance_a, balance_b).dom().contains(d));
                    }
                    lemma_balance_equal(ea, eb);
                } else {
                    let d = er[0].0;
                    assert(balance_difference(balance_a, balance_b).dom().contains(d));
                    assert(amount_in(balance_a, d) != amount_in(balance_b, d));
                }
            }
            Ok(rest.len() == 0)
        },
        Err(ContractError::Overflow) => match merge_refs(b, Operation::Sub, a) {
            Ok(_) => {
                proof {
                    assert forall|d: Seq<char>| #[trigger]
                        amount_in(balance_a, d) <= u128::MAX by {
                        assert(amount_in(balance_a, d) <= amount_in(balance_b, d));
                        assert(amount_in(balance_b, d) <= u128::MAX);
                    }
                }
                Ok(false)
            },
            Err(ContractError::Overflow) => Err(ContractError::Overflow),
            Err(_) => Ok(false),
        },
        Err(_) => Ok(false),
    }
}

/// Whether two vectors of fixed-point coins have the same balance, as
/// `check_equal_vec` tells for whole tokens.
pub fn check_equal_deccoin_vector(a: &Vec<DecCoin>, b: &Vec<DecCoin>) -> (result: Result<
    bool,
    ContractError,
>)
    ensures
        match result {
            Ok(equal) => equal == (dec_coins_balance(a@) == dec_coins_balance(b@)) && (balance_fits(
                dec_coins_balance(a@),
            ) || balance_fits(dec_coins_balance(b@))),
            Err(e) => e == ContractError::Overflow && !balance_fits(dec_coins_balance(a@))
                && !balance_fits(dec_coins_balance(b@)),
        },
{
    let atomic_a = to_atomic_coins(a);
    let atomic_b = to_atomic_coins(b);
    check_equal_vec(&atomic_a, &atomic_b)
}


/// Adding is commutative: merging `b` into `a` and merging `a` into `b`
/// give the same balance, or fail alike.
pub proof fn lemma_merge_add_commutative(a: Seq<Coin>, b: Seq<Coin>)
    ensures
        merged(coins_balance(a), Operation::Add, coins_balance(b)) == merged(
            coins_balance(b),
            Operation::Add,
            coins_balance(a),
        ),
{
    lemma_balance_sum_commutative(coins_balance(a), coins_balance(b));
}

/// `second` merged into the outcome of `first`, if there is one.
pub open spec fn then_add(first: Result<Balance, ContractError>, second: Balance) -> Result<
    Balance,
    ContractError,
> {
    match first {
        Ok(balance) => merged(balance, Operation::Add, second),
        Err(e) => Err(e),
    }
}

/// Adding is associative: three balances merged one after another give the
/// same balance, or fail alike, whichever two are merged first.
pub proof fn lemma_merge_add_associative(a: Balance, b: Balance, c: Balance)
    ensures
        then_add(merged(a, Operation::Add, b), c) == then_add(merged(b, Operation::Add, c), a),
{
    lemma_balance_sum_associative(a, b, c);
    lemma_balance_sum_commutative(balance_sum(b, c), a);
    let all = balance_sum(balance_sum(a, b), c);
    if balance_fits(all) {
        assert forall|d: Seq<char>| #[trigger] amount_in(balance_sum(a, b), d) <= u128::MAX by {
            assert(amount_in(all, d) <= u128::MAX);
        }
        assert forall|d: Seq<char>| #[trigger] amount_in(balance_sum(b, c), d) <= u128::MAX by {
            assert(amount_in(all, d) <= u128::MAX);
        }
    } else {
        let d = choose|d: Seq<char>| !(#[trigger] amount_in(all, d) <= u128::MAX);
        if balance_fits(balance_sum(a, b)) {
            assert(amount_in(balance_sum(a, b), d) <= u128::MAX);
        }
        if balance_fits(balance_sum(b, c)) {
            assert(amount_in(balance_sum(b, c), d) <= u128::MAX);
            assert(amount_in(balance_sum(balance_sum(b, c), a), d) > u128::MAX);
        }
    }
}


} // verus!
