use stader_contracts::coin_utils::{
    check_equal_deccoin_vector, check_equal_vec, clone_coin_vector, clone_dec_coin_vector,
    deccoin_vec_to_coin_vec, merge_coin_vector, merge_dec_coin_vector,
    multiply_deccoin_vector_with_decimal, Coin, CoinVecOp, DecCoin, DecCoinVecOp, Operation,
};
use stader_contracts::decimal::{
    decimal_division_in_256, decimal_multiplication_in_256, decimal_subtraction_in_256,
    decimal_summation_in_256, Decimal, DECIMAL_FRACTIONAL,
};
use stader_contracts::error::{ContractError, Record, ScheduleViolation};

const UNIT: u128 = 1_000_000_000_000_000_000;

fn coins(entries: &[(u128, &str)]) -> Vec<Coin> {
    entries.iter().map(|(amount, denom)| Coin::new(*amount, denom)).collect()
}

fn merge(a: &[(u128, &str)], operation: Operation, b: &[(u128, &str)]) -> Result<Vec<Coin>, ContractError> {
    merge_coin_vector(coins(a), CoinVecOp { fund: coins(b), operation })
}

#[test]
fn merge_adds_by_denomination() {
    let sum = merge(&[(100, "abc"), (50, "def")], Operation::Add, &[(7, "def"), (1, "xyz")]).unwrap();
    assert_eq!(sum, coins(&[(100, "abc"), (57, "def"), (1, "xyz")]));
}

#[test]
fn merge_add_is_commutative() {
    let a = [(100, "abc"), (50, "def"), (3, "abc")];
    let b = [(9, "xyz"), (7, "def")];
    let ab = merge(&a, Operation::Add, &b).unwrap();
    let ba = merge(&b, Operation::Add, &a).unwrap();
    assert_eq!(check_equal_vec(&ab, &ba), Ok(true));
    assert_eq!(ab.len(), 3);
    assert_eq!(ba.len(), 3);
}

#[test]
fn merge_add_is_associative() {
    let a = [(1, "a"), (2, "b")];
    let b = [(3, "b"), (4, "c")];
    let c = [(5, "c"), (6, "a")];
    let left = merge_coin_vector(
        merge(&a, Operation::Add, &b).unwrap(),
        CoinVecOp { fund: coins(&c), operation: Operation::Add },
    )
    .unwrap();
    let right = merge_coin_vector(
        coins(&a),
        CoinVecOp { fund: merge(&b, Operation::Add, &c).unwrap(), operation: Operation::Add },
    )
    .unwrap();
    assert_eq!(check_equal_vec(&left, &right), Ok(true));
    assert_eq!(check_equal_vec(&left, &coins(&[(7, "a"), (5, "b"), (9, "c")])), Ok(true));
}

#[test]
fn merge_does_not_depend_on_order() {
    let one = merge(&[(1, "a"), (2, "b")], Operation::Add, &[(3, "b"), (4, "a")]).unwrap();
    let other = merge(&[(2, "b"), (1, "a")], Operation::Add, &[(4, "a"), (3, "b")]).unwrap();
    assert_eq!(check_equal_vec(&one, &other), Ok(true));
    assert_eq!(check_equal_vec(&one, &coins(&[(5, "a"), (5, "b")])), Ok(true));
}

#[test]
fn merge_omits_zero_amounts() {
    let rest = merge(&[(5, "a"), (2, "b"), (0, "c")], Operation::Sub, &[(5, "a")]).unwrap();
    assert_eq!(rest, coins(&[(2, "b")]));
    let sum = merge(&[(0, "a")], Operation::Add, &[(0, "a"), (0, "b")]).unwrap();
    assert_eq!(sum, vec![]);
}

#[test]
fn merge_sub_below_zero_is_underflow() {
    assert_eq!(merge(&[(5, "a")], Operation::Sub, &[(6, "a")]), Err(ContractError::Underflow));
    assert_eq!(merge(&[(5, "a")], Operation::Sub, &[(1, "b")]), Err(ContractError::Underflow));
    assert_eq!(merge(&[(5, "a")], Operation::Sub, &[(3, "a"), (3, "a")]), Err(ContractError::Underflow));
    assert_eq!(merge(&[(5, "a")], Operation::Sub, &[(0, "b")]), Ok(coins(&[(5, "a")])));
}

#[test]
fn merge_beyond_128_bits_is_overflow() {
    assert_eq!(
        merge(&[(u128::MAX, "a")], Operation::Add, &[(1, "a")]),
        Err(ContractError::Overflow)
    );
    assert_eq!(
        merge(&[(u128::MAX, "a"), (1, "a")], Operation::Sub, &[(1, "a")]),
        Err(ContractError::Overflow)
    );
    assert_eq!(
        merge(&[(u128::MAX, "a")], Operation::Add, &[(1, "b")]),
        Ok(coins(&[(u128::MAX, "a"), (1, "b")]))
    );
}

#[test]
fn merge_of_fixed_point_coins() {
    let pointer = vec![DecCoin::new(Decimal::raw(2 * UNIT), "abc"), DecCoin::new(Decimal::raw(UNIT), "def")];
    let user = vec![DecCoin::new(Decimal::raw(UNIT / 2), "abc"), DecCoin::new(Decimal::raw(UNIT), "def")];
    let advance =
        merge_dec_coin_vector(&pointer, DecCoinVecOp { fund: user.clone(), operation: Operation::Sub })
            .unwrap();
    assert_eq!(advance, vec![DecCoin::new(Decimal::raw(3 * UNIT / 2), "abc")]);
    assert_eq!(
        merge_dec_coin_vector(&user, DecCoinVecOp { fund: pointer, operation: Operation::Sub }),
        Err(ContractError::Underflow)
    );
}

#[test]
fn multiply_by_scalar_rounds_each_entry_down() {
    let coins = vec![DecCoin::new(Decimal::raw(3), "abc"), DecCoin::new(Decimal::raw(3 * UNIT), "def")];
    let half = multiply_deccoin_vector_with_decimal(&coins, Decimal::raw(UNIT / 2)).unwrap();
    assert_eq!(
        half,
        vec![DecCoin::new(Decimal::raw(1), "abc"), DecCoin::new(Decimal::raw(3 * UNIT / 2), "def")]
    );
    assert_eq!(
        multiply_deccoin_vector_with_decimal(
            &vec![DecCoin::new(Decimal::raw(u128::MAX), "abc")],
            Decimal::raw(2 * UNIT)
        ),
        Err(ContractError::Overflow)
    );
}

#[test]
fn fixed_point_coins_become_whole_tokens_rounded_down() {
    let coins = vec![
        DecCoin::new(Decimal::raw(15 * UNIT + UNIT - 1), "abc"),
        DecCoin::new(Decimal::raw(UNIT - 1), "def"),
    ];
    assert_eq!(deccoin_vec_to_coin_vec(&coins), vec![Coin::new(15, "abc"), Coin::new(0, "def")]);
}

#[test]
fn equality_of_vectors_is_equality_of_balances() {
    let a = coins(&[(1, "a"), (2, "b"), (0, "z")]);
    let b = coins(&[(2, "b"), (1, "a")]);
    let c = coins(&[(2, "b"), (2, "a")]);
    assert_eq!(check_equal_vec(&a, &b), Ok(true));
    assert_eq!(check_equal_vec(&a, &c), Ok(false));
    assert_eq!(check_equal_vec(&c, &a), Ok(false));
    assert_eq!(check_equal_vec(&vec![], &coins(&[(0, "a")])), Ok(true));
    let big = coins(&[(u128::MAX, "a"), (1, "a")]);
    assert_eq!(check_equal_vec(&big, &a), Ok(false));
    assert_eq!(check_equal_vec(&a, &big), Ok(false));
    assert_eq!(check_equal_vec(&big, &big), Err(ContractError::Overflow));
    let x = vec![DecCoin::new(Decimal::raw(5), "a")];
    let y = vec![DecCoin::new(Decimal::raw(2), "a"), DecCoin::new(Decimal::raw(3), "a")];
    assert_eq!(check_equal_deccoin_vector(&x, &y), Ok(true));
    assert_eq!(check_equal_deccoin_vector(&x, &vec![]), Ok(false));
}

#[test]
fn copies_are_equal() {
    let a = coins(&[(1, "a"), (2, "b")]);
    assert_eq!(clone_coin_vector(&a), a);
    let x = vec![DecCoin::new(Decimal::raw(5), "a")];
    assert_eq!(clone_dec_coin_vector(&x), x);
}

#[test]
fn ratio_rounds_down_and_says_when_it_cannot() {
    assert_eq!(Decimal::from_ratio(1, 2), Ok(Decimal::raw(UNIT / 2)));
    assert_eq!(Decimal::from_ratio(1, 3), Ok(Decimal::raw(333_333_333_333_333_333)));
    assert_eq!(Decimal::from_ratio(7, 1), Ok(Decimal::raw(7 * UNIT)));
    assert_eq!(Decimal::from_ratio(1, 0), Err(ContractError::DivideByZero));
    assert_eq!(Decimal::from_ratio(u128::MAX, 1), Err(ContractError::Overflow));
    assert_eq!(Decimal::from_ratio(u128::MAX, UNIT), Ok(Decimal::raw(u128::MAX)));
}

#[test]
fn decimal_arithmetic() {
    let one_and_a_half = Decimal::raw(3 * UNIT / 2);
    let two = Decimal::raw(2 * UNIT);
    assert_eq!(decimal_summation_in_256(one_and_a_half, two), Ok(Decimal::raw(7 * UNIT / 2)));
    assert_eq!(
        decimal_summation_in_256(Decimal::raw(u128::MAX), Decimal::raw(1)),
        Err(ContractError::Overflow)
    );
    assert_eq!(decimal_subtraction_in_256(two, one_and_a_half), Ok(Decimal::raw(UNIT / 2)));
    assert_eq!(decimal_subtraction_in_256(one_and_a_half, two), Err(ContractError::Underflow));
    assert_eq!(decimal_multiplication_in_256(one_and_a_half, two), Ok(Decimal::raw(3 * UNIT)));
    // the product passes 128 bits on the way and fits in the end
    assert_eq!(
        decimal_multiplication_in_256(Decimal::raw(u128::MAX), Decimal::raw(UNIT / 2)),
        Ok(Decimal::raw(u128::MAX / 2))
    );
    assert_eq!(
        decimal_multiplication_in_256(Decimal::raw(u128::MAX), two),
        Err(ContractError::Overflow)
    );
    assert_eq!(decimal_division_in_256(Decimal::raw(3 * UNIT), two), Ok(one_and_a_half));
    assert_eq!(decimal_division_in_256(two, Decimal::zero()), Err(ContractError::DivideByZero));
    assert_eq!(
        decimal_division_in_256(Decimal::raw(u128::MAX), Decimal::raw(1)),
        Err(ContractError::Overflow)
    );
    assert_eq!(one_and_a_half.multiply_amount(3), Ok(4));
    assert_eq!(two.multiply_amount(u128::MAX), Err(ContractError::Overflow));
    assert_eq!(one_and_a_half.to_uint_floor(), 1);
    assert_eq!(one_and_a_half.atomics(), 3 * UNIT / 2);
    assert!(Decimal::zero().is_zero());
    assert!(!Decimal::one().is_zero());
    assert_eq!(Decimal::one().atomics, DECIMAL_FRACTIONAL);
}

#[test]
fn errors_have_messages() {
    assert_eq!(ContractError::Unauthorized.message(), "unauthorized");
    assert_eq!(ContractError::Underflow.message(), "cannot subtract more than there is");
    assert_eq!(
        ContractError::AlreadyExists(Record::StrategyMetadata).message(),
        "strategy metadata already exists"
    );
    assert_eq!(ContractError::NotFound(Record::StakerInfo).message(), "staker info does not exist");
    assert_eq!(ContractError::NotImplemented.message(), "not implemented");
    assert_eq!(ContractError::SerializationError.message(), "data should be given");
    assert_eq!(
        ContractError::InvalidSchedule(ScheduleViolation::RemovesStarted).message(),
        "new schedule removes already started distribution"
    );
    assert_eq!(
        ContractError::InvalidSchedule(ScheduleViolation::AddsStarted).message(),
        "new schedule adds an already started distribution"
    );
}
