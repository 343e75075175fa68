//! Balances: how much is held of each denomination, and the arithmetic of
//! the lists of (denomination, amount) entries that add up to them.

use crate::decimal::{DECIMAL_FRACTIONAL, Decimal};
use vstd::prelude::*;
use vstd::seq_lib::{
    to_multiset_build, to_multiset_contains, to_multiset_len, to_multiset_remove,
};

verus! {

/// A balance: the amount held of each denomination. A denomination of which
/// nothing is held is not in the domain.
pub type Balance = Map<Seq<char>, nat>;

/// The sum of the amounts that `entries` holds under `denom`.
pub open spec fn total_of(entries: Seq<(Seq<char>, nat)>, denom: Seq<char>) -> nat
    decreases entries.len(),
{
    if entries.len() == 0 {
        0
    } else {
        total_of(entries.drop_last(), denom) + if entries.last().0 == denom {
            entries.last().1
        } else {
            0nat
        }
    }
}

/// The balance that `entries` add up to.
pub open spec fn balance_of(entries: Seq<(Seq<char>, nat)>) -> Balance {
    Map::new(|d: Seq<char>| total_of(entries, d) > 0, |d: Seq<char>| total_of(entries, d))
}

/// The amount that `balance` holds of `denom`: zero outside the domain.
pub open spec fn amount_in(balance: Balance, denom: Seq<char>) -> nat {
    if balance.dom().contains(denom) {
        balance[denom]
    } else {
        0
    }
}

/// No denomination occurs twice.
pub open spec fn distinct_denoms(entries: Seq<(Seq<char>, nat)>) -> bool {
    forall|i: int, j: int|
        0 <= i < j < entries.len() ==> (#[trigger] entries[i]).0 != (#[trigger] entries[j]).0
}

/// No denomination occurs twice and no amount is zero.
pub open spec fn canonical(entries: Seq<(Seq<char>, nat)>) -> bool {
    &&& distinct_denoms(entries)
    &&& forall|i: int| 0 <= i < entries.len() ==> (#[trigger] entries[i]).1 > 0
}

/// Every amount fits in 128 bits.
pub open spec fn balance_fits(balance: Balance) -> bool {
    forall|d: Seq<char>| #[trigger] amount_in(balance, d) <= u128::MAX
}

/// `a` holds at least as much of every denomination as `b`.
pub open spec fn balance_covers(a: Balance, b: Balance) -> bool {
    forall|d: Seq<char>| #[trigger] amount_in(b, d) <= amount_in(a, d)
}

/// The balance that holds, of each denomination, what `a` and `b` hold together.
pub open spec fn balance_sum(a: Balance, b: Balance) -> Balance {
    Map::new(
        |d: Seq<char>| amount_in(a, d) + amount_in(b, d) > 0,
        |d: Seq<char>| amount_in(a, d) + amount_in(b, d),
    )
}

/// The balance that holds, of each denomination, what `a` holds beyond `b`.
pub open spec fn balance_difference(a: Balance, b: Balance) -> Balance {
    Map::new(
        |d: Seq<char>| amount_in(a, d) > amount_in(b, d),
        |d: Seq<char>| (amount_in(a, d) - amount_in(b, d)) as nat,
    )
}

/// `amount * factor`, rounded down, all three in units of 10^-18.
pub open spec fn scaled_amount(amount: nat, factor: Decimal) -> nat {
    ((amount * factor.atomics) / (DECIMAL_FRACTIONAL as int)) as nat
}

/// The whole units in an amount counted in units of 10^-18.
pub open spec fn whole_amount(amount: nat) -> nat {
    amount / (DECIMAL_FRACTIONAL as nat)
}

/// The same denominations with `change` applied to each amount.
pub open spec fn map_amounts(entries: Seq<(Seq<char>, nat)>, change: spec_fn(nat) -> nat) -> Seq<
    (Seq<char>, nat),
> {
    entries.map_values(|e: (Seq<char>, nat)| (e.0, change(e.1)))
}

/// Every entry times `factor` fits in 128 bits.
pub open spec fn entries_scalable(entries: Seq<(Seq<char>, nat)>, factor: Decimal) -> bool {
    forall|i: int|
        0 <= i < entries.len() ==> scaled_amount((#[trigger] entries[i]).1, factor) <= u128::MAX
}

/// Every amount times `factor` fits in 128 bits.
pub open spec fn balance_scalable(balance: Balance, factor: Decimal) -> bool {
    forall|d: Seq<char>| scaled_amount(#[trigger] amount_in(balance, d), factor) <= u128::MAX
}

/// The balance with every amount multiplied by `factor` and rounded down
/// to a multiple of 10^-18.
pub open spec fn balance_scaled(balance: Balance, factor: Decimal) -> Balance {
    Map::new(
        |d: Seq<char>| scaled_amount(amount_in(balance, d), factor) > 0,
        |d: Seq<char>| scaled_amount(amount_in(balance, d), factor),
    )
}

/// The whole units of a balance counted in units of 10^-18.
pub open spec fn balance_whole(balance: Balance) -> Balance {
    Map::new(
        |d: Seq<char>| whole_amount(amount_in(balance, d)) > 0,
        |d: Seq<char>| whole_amount(amount_in(balance, d)),
    )
}

pub proof fn lemma_total_push(
    entries: Seq<(Seq<char>, nat)>,
    entry: (Seq<char>, nat),
    denom: Seq<char>,
)
    ensures
        total_of(entries.push(entry), denom) == total_of(entries, denom) + if entry.0 == denom {
            entry.1
        } else {
            0nat
        },
{
    assert(entries.push(entry).drop_last() =~= entries);
}

/// Replacing the amount of entry `i` changes the total of its denomination
/// by the difference, and no other total.
pub proof fn lemma_total_update(
    entries: Seq<(Seq<char>, nat)>,
    i: int,
    amount: nat,
    denom: Seq<char>,
)
    requires
        0 <= i < entries.len(),
    ensures
        total_of(entries.update(i, (entries[i].0, amount)), denom) + (if entries[i].0 == denom {
            entries[i].1
        } else {
            0nat
        }) == total_of(entries, denom) + (if entries[i].0 == denom {
            amount
        } else {
            0nat
        }),
    decreases entries.len(),
{
    let updated = entries.update(i, (entries[i].0, amount));
    if i == entries.len() - 1 {
        assert(updated.drop_last() =~= entries.drop_last());
    } else {
        lemma_total_update(entries.drop_last(), i, amount, denom);
        assert(updated.drop_last() =~= entries.drop_last().update(i, (entries[i].0, amount)));
    }
}

pub proof fn lemma_total_absent(entries: Seq<(Seq<char>, nat)>, denom: Seq<char>)
    requires
        forall|j: int| 0 <= j < entries.len() ==> (#[trigger] entries[j]).0 != denom,
    ensures
        total_of(entries, denom) == 0,
    decreases entries.len(),
{
    if entries.len() > 0 {
        lemma_total_absent(entries.drop_last(), denom);
    }
}

/// Where no denomination occurs twice, an entry's amount is its denomination's total.
pub proof fn lemma_total_distinct(entries: Seq<(Seq<char>, nat)>, i: int)
    requires
        distinct_denoms(entries),
        0 <= i < entries.len(),
    ensures
        total_of(entries, entries[i].0) == entries[i].1,
    decreases entries.len(),
{
    let rest = entries.drop_last();
    if i == entries.len() - 1 {
        assert forall|j: int| 0 <= j < rest.len() implies (#[trigger] rest[j]).0 != entries[i].0 by {
            assert(rest[j] == entries[j]);
        }
        lemma_total_absent(rest, entries[i].0);
    } else {
        assert forall|a: int, b: int| 0 <= a < b < rest.len() implies (#[trigger] rest[a]).0 != (
        #[trigger] rest[b]).0 by {
            assert(rest[a] == entries[a] && rest[b] == entries[b]);
        }
        lemma_total_distinct(rest, i);
        assert(rest[i] == entries[i]);
        assert(entries[i].0 != entries.last().0);
    }
}

/// A total is positive only where some entry carries the denomination.
pub proof fn lemma_total_positive(entries: Seq<(Seq<char>, nat)>, denom: Seq<char>)
    requires
        total_of(entries, denom) > 0,
    ensures
        exists|i: int| 0 <= i < entries.len() && (#[trigger] entries[i]).0 == denom,
{
    if forall|j: int| 0 <= j < entries.len() ==> (#[trigger] entries[j]).0 != denom {
        lemma_total_absent(entries, denom);
    }
}

/// The total of a prefix never exceeds the total of the whole.
pub proof fn lemma_total_prefix(entries: Seq<(Seq<char>, nat)>, k: int, denom: Seq<char>)
    requires
        0 <= k <= entries.len(),
    ensures
        total_of(entries.take(k), denom) <= total_of(entries, denom),
    decreases entries.len() - k,
{
    if k == entries.len() {
        assert(entries.take(k) =~= entries);
    } else {
        lemma_total_prefix(entries, k + 1, denom);
        assert(entries.take(k + 1) =~= entries.take(k).push(entries[k]));
        lemma_total_push(entries.take(k), entries[k], denom);
    }
}

/// Where no denomination occurs twice, changing every amount changes every
/// total likewise, provided that nothing stays nothing.
pub proof fn lemma_total_mapped(
    entries: Seq<(Seq<char>, nat)>,
    change: spec_fn(nat) -> nat,
    denom: Seq<char>,
)
    requires
        distinct_denoms(entries),
        change(0) == 0,
    ensures
        distinct_denoms(map_amounts(entries, change)),
        total_of(map_amounts(entries, change), denom) == change(total_of(entries, denom)),
    decreases entries.len(),
{
    let mapped = map_amounts(entries, change);
    assert forall|i: int, j: int| 0 <= i < j < mapped.len() implies (#[trigger] mapped[i]).0 != (
    #[trigger] mapped[j]).0 by {
        assert(entries[i].0 != entries[j].0);
    }
    if entries.len() > 0 {
        let rest = entries.drop_last();
        assert forall|a: int, b: int| 0 <= a < b < rest.len() implies (#[trigger] rest[a]).0 != (
        #[trigger] rest[b]).0 by {
            assert(rest[a] == entries[a] && rest[b] == entries[b]);
        }
        lemma_total_mapped(rest, change, denom);
        assert(mapped.drop_last() =~= map_amounts(rest, change));
        if entries.last().0 == denom {
            assert forall|j: int| 0 <= j < rest.len() implies (#[trigger] rest[j]).0 != denom by {
                assert(rest[j] == entries[j]);
            }
            lemma_total_absent(rest, denom);
        }
    }
}

/// A vector in canonical form is empty exactly if its balance is.
pub proof fn lemma_canonical_empty(entries: Seq<(Seq<char>, nat)>)
    requires
        canonical(entries),
    ensures
        entries.len() == 0 ==> balance_of(entries) == Map::<Seq<char>, nat>::empty(),
        entries.len() > 0 ==> balance_of(entries).dom().contains(entries[0].0),
{
    if entries.len() == 0 {
        assert(balance_of(entries) =~= Map::<Seq<char>, nat>::empty());
    } else {
        lemma_total_distinct(entries, 0);
    }
}

/// Entries with the same totals make the same balance.
pub proof fn lemma_balance_equal(a: Seq<(Seq<char>, nat)>, b: Seq<(Seq<char>, nat)>)
    requires
        forall|d: Seq<char>| #[trigger] total_of(a, d) == total_of(b, d),
    ensures
        balance_of(a) == balance_of(b),
{
    assert(balance_of(a) =~= balance_of(b));
}

/// The sum of two balances does not depend on their order.
pub proof fn lemma_balance_sum_commutative(a: Balance, b: Balance)
    ensures
        balance_sum(a, b) == balance_sum(b, a),
{
    assert(balance_sum(a, b) =~= balance_sum(b, a));
}

/// The sum of three balances does not depend on how they are grouped.
pub proof fn lemma_balance_sum_associative(a: Balance, b: Balance, c: Balance)
    ensures
        balance_sum(balance_sum(a, b), c) == balance_sum(a, balance_sum(b, c)),
{
    assert(balance_sum(balance_sum(a, b), c) =~= balance_sum(a, balance_sum(b, c)));
}

/// Where no denomination occurs twice, multiplying entry by entry
/// multiplies the balance, and the one fits where the other does.
pub proof fn lemma_scaled_balance(entries: Seq<(Seq<char>, nat)>, factor: Decimal)
    requires
        distinct_denoms(entries),
    ensures
        distinct_denoms(map_amounts(entries, |a: nat| scaled_amount(a, factor))),
        balance_of(map_amounts(entries, |a: nat| scaled_amount(a, factor))) == balance_scaled(
            balance_of(entries),
            factor,
        ),
        entries_scalable(entries, factor) == balance_scalable(balance_of(entries), factor),
{
    let change = |a: nat| scaled_amount(a, factor);
    let mapped = map_amounts(entries, change);
    assert(change(0) == 0);
    lemma_total_mapped(entries, change, Seq::empty());
    assert forall|d: Seq<char>|
        #[trigger] total_of(mapped, d) == scaled_amount(total_of(entries, d), factor) by {
        lemma_total_mapped(entries, change, d);
    }
    assert(balance_of(mapped) =~= balance_scaled(balance_of(entries), factor));
    if entries_scalable(entries, factor) {
        assert forall|d: Seq<char>|
            scaled_amount(#[trigger] amount_in(balance_of(entries), d), factor) <= u128::MAX by {
            if total_of(entries, d) > 0 {
                lemma_total_positive(entries, d);
                let i = choose|i: int| 0 <= i < entries.len() && (#[trigger] entries[i]).0 == d;
                lemma_total_distinct(entries, i);
            }
        }
    }
    if balance_scalable(balance_of(entries), factor) {
        assert forall|i: int| 0 <= i < entries.len() implies scaled_amount(
            (#[trigger] entries[i]).1,
            factor,
        ) <= u128::MAX by {
            lemma_total_distinct(entries, i);
            assert(amount_in(balance_of(entries), entries[i].0) == entries[i].1);
        }
    }
}

/// Where no denomination occurs twice, dropping the fraction entry by entry
/// drops it from the balance.
pub proof fn lemma_whole_balance(entries: Seq<(Seq<char>, nat)>)
    requires
        distinct_denoms(entries),
    ensures
        balance_of(map_amounts(entries, |a: nat| whole_amount(a))) == balance_whole(
            balance_of(entries),
        ),
{
    let change = |a: nat| whole_amount(a);
    let mapped = map_amounts(entries, change);
    assert(change(0) == 0);
    assert forall|d: Seq<char>|
        #[trigger] total_of(mapped, d) == whole_amount(total_of(entries, d)) by {
        lemma_total_mapped(entries, change, d);
    }
    assert(balance_of(mapped) =~= balance_whole(balance_of(entries)));
}


/// Taking an entry out takes its amount from the total of its denomination,
/// and from no other total.
pub proof fn lemma_total_remove(entries: Seq<(Seq<char>, nat)>, i: int, denom: Seq<char>)
    requires
        0 <= i < entries.len(),
    ensures
        total_of(entries.remove(i), denom) + (if entries[i].0 == denom {
            entries[i].1
        } else {
            0nat
        }) == total_of(entries, denom),
    decreases entries.len(),
{
    if i == entries.len() - 1 {
        assert(entries.remove(i) =~= entries.drop_last());
    } else {
        lemma_total_remove(entries.drop_last(), i, denom);
        assert(entries.remove(i).drop_last() =~= entries.drop_last().remove(i));
        assert(entries.remove(i).last() == entries.last());
    }
}

/// The order of the entries does not count: lists that hold the same
/// entries equally often, in whatever order, add up to the same balance.
pub proof fn lemma_balance_order_independent(
    a: Seq<(Seq<char>, nat)>,
    b: Seq<(Seq<char>, nat)>,
)
    requires
        a.to_multiset() == b.to_multiset(),
    ensures
        balance_of(a) == balance_of(b),
{
    assert forall|d: Seq<char>| #[trigger] total_of(a, d) == total_of(b, d) by {
        lemma_totals_order_independent(a, b, d);
    }
    lemma_balance_equal(a, b);
}

proof fn lemma_totals_order_independent(
    a: Seq<(Seq<char>, nat)>,
    b: Seq<(Seq<char>, nat)>,
    denom: Seq<char>,
)
    requires
        a.to_multiset() == b.to_multiset(),
    ensures
        total_of(a, denom) == total_of(b, denom),
    decreases a.len(),
{
    to_multiset_len(a);
    to_multiset_len(b);
    if a.len() > 0 {
        let last = a.last();
        let rest = a.drop_last();
        assert(a =~= rest.push(last));
        to_multiset_build(rest, last);
        to_multiset_contains(b, last);
        assert(b.to_multiset().count(last) > 0);
        let j = choose|j: int| 0 <= j < b.len() && b[j] == last;
        to_multiset_remove(b, j);
        assert(rest.to_multiset() =~= b.remove(j).to_multiset());
        lemma_totals_order_independent(rest, b.remove(j), denom);
        lemma_total_remove(b, j, denom);
    }
}

} // verus!
