//! Fixed-point numbers with eighteen fractional digits.

use crate::error::ContractError;
use vstd::prelude::*;

verus! {

/// Atomic units in one whole: ten to the eighteenth.
pub const DECIMAL_FRACTIONAL: u128 = 1_000_000_000_000_000_000;

/// `value * numerator / denominator`, rounded down, as far as it is defined
/// and fits in 128 bits.
pub open spec fn multiply_ratio(value: u128, numerator: u128, denominator: u128) -> Result<
    u128,
    ContractError,
> {
    if denominator == 0 {
        Err(ContractError::DivideByZero)
    } else if (value * numerator) / (denominator as int) > u128::MAX {
        Err(ContractError::Overflow)
    } else {
        Ok(((value * numerator) / (denominator as int)) as u128)
    }
}

/// Calls `cosmwasm_std::Uint128::checked_multiply_ratio`, which forms the
/// product in 256 bits before it divides. The contract repeats what that
/// method documents: the floored quotient, `DivideByZero` for a zero
/// denominator, `Overflow` when the quotient needs more than 128 bits.
#[verifier::external_body]
pub(crate) fn checked_multiply_ratio(value: u128, numerator: u128, denominator: u128) -> (result:
    Result<u128, ContractError>)
    ensures
        result == multiply_ratio(value, numerator, denominator),
{
    match cosmwasm_std::Uint128::new(value).checked_multiply_ratio(numerator, denominator) {
        Ok(ratio) => Ok(ratio.u128()),
        Err(cosmwasm_std::CheckedMultiplyRatioError::DivideByZero) => Err(
            ContractError::DivideByZero,
        ),
        Err(cosmwasm_std::CheckedMultiplyRatioError::Overflow) => Err(ContractError::Overflow),
    }
}

/// A non-negative fixed-point number: `atomics` counts units of 10^-18.
#[derive(Clone, Copy, Debug, PartialEq, Eq, Structural)]
pub struct Decimal {
    pub atomics: u128,
}

impl Decimal {
    /// The number 0.
    pub fn zero() -> (d: Decimal)
        ensures
            d.atomics == 0,
    {
        Decimal { atomics: 0 }
    }

    /// The number 1.
    pub fn one() -> (d: Decimal)
        ensures
            d.atomics == DECIMAL_FRACTIONAL,
    {
        Decimal { atomics: DECIMAL_FRACTIONAL }
    }

    /// The number made of `atomics` units of 10^-18.
    pub fn raw(atomics: u128) -> (d: Decimal)
        ensures
            d.atomics == atomics,
    {
        Decimal { atomics }
    }

    /// The count of units of 10^-18.
    pub fn atomics(&self) -> (a: u128)
        ensures
            a == self.atomics,
    {
        self.atomics
    }

    pub fn is_zero(&self) -> (z: bool)
        ensures
            z == (self.atomics == 0),
    {
        self.atomics == 0
    }

    /// `numerator / denominator`, rounded down to a multiple of 10^-18.
    pub fn from_ratio(
        numerator: u128,
        denominator: u128,
    ) -> (result: Result<Decimal, ContractError>)
        ensures
            result == Decimal::ratio(numerator, denominator),
    {
        match checked_multiply_ratio(numerator, DECIMAL_FRACTIONAL, denominator) {
            Ok(atomics) => Ok(Decimal { atomics }),
            Err(e) => Err(e),
        }
    }

    /// What `from_ratio` returns.
    pub open spec fn ratio(numerator: u128, denominator: u128) -> Result<Decimal, ContractError> {
        match multiply_ratio(numerator, DECIMAL_FRACTIONAL, denominator) {
            Ok(atomics) => Ok(Decimal { atomics }),
            Err(e) => Err(e),
        }
    }

    /// The whole units of `amount * self`, rounded down.
    pub fn multiply_amount(&self, amount: u128) -> (result: Result<u128, ContractError>)
        ensures
            result == multiply_ratio(amount, self.atomics, DECIMAL_FRACTIONAL),
            !(result matches Err(ContractError::DivideByZero)),
    {
        checked_multiply_ratio(amount, self.atomics, DECIMAL_FRACTIONAL)
    }

    /// The whole part.
    pub fn to_uint_floor(&self) -> (whole: u128)
        ensures
            whole == self.atomics / DECIMAL_FRACTIONAL,
    {
        self.atomics / DECIMAL_FRACTIONAL
    }
}

/// The sum of two decimals, as far as it fits.
pub open spec fn decimal_sum(a: Decimal, b: Decimal) -> Result<Decimal, ContractError> {
    if a.atomics + b.atomics > u128::MAX {
        Err(ContractError::Overflow)
    } else {
        Ok(Decimal { atomics: (a.atomics + b.atomics) as u128 })
    }
}

/// The difference of two decimals, as far as it is not negative.
pub open spec fn decimal_difference(a: Decimal, b: Decimal) -> Result<Decimal, ContractError> {
    if a.atomics < b.atomics {
        Err(ContractError::Underflow)
    } else {
        Ok(Decimal { atomics: (a.atomics - b.atomics) as u128 })
    }
}

/// The product of two decimals, rounded down, as far as it fits.
pub open spec fn decimal_product(a: Decimal, b: Decimal) -> Result<Decimal, ContractError> {
    match multiply_ratio(a.atomics, b.atomics, DECIMAL_FRACTIONAL) {
        Ok(atomics) => Ok(Decimal { atomics }),
        Err(e) => Err(e),
    }
}

/// The quotient of two decimals, rounded down, as far as it is defined and fits.
pub open spec fn decimal_quotient(a: Decimal, b: Decimal) -> Result<Decimal, ContractError> {
    match multiply_ratio(a.atomics, DECIMAL_FRACTIONAL, b.atomics) {
        Ok(atomics) => Ok(Decimal { atomics }),
        Err(e) => Err(e),
    }
}

/// `a + b`; `Overflow` when the sum needs more than 128 bits.
pub fn decimal_summation_in_256(a: Decimal, b: Decimal) -> (result: Result<Decimal, ContractError>)
    ensures
        result == decimal_sum(a, b),
{
    match a.atomics.checked_add(b.atomics) {
        Some(atomics) => Ok(Decimal { atomics }),
        None => Err(ContractError::Overflow),
    }
}

/// `a - b`; `Underflow` when `b` is the larger.
pub fn decimal_subtraction_in_256(a: Decimal, b: Decimal) -> (result: Result<
    Decimal,
    ContractError,
>)
    ensures
        result == decimal_difference(a, b),
{
    match a.atomics.checked_sub(b.atomics) {
        Some(atomics) => Ok(Decimal { atomics }),
        None => Err(ContractError::Underflow),
    }
}

/// `a * b`, rounded down; the product is formed in 256 bits, and `Overflow`
/// comes only when the rounded result needs more than 128.
pub fn decimal_multiplication_in_256(a: Decimal, b: Decimal) -> (result: Result<
    Decimal,
    ContractError,
>)
    ensures
        result == decimal_product(a, b),
{
    match checked_multiply_ratio(a.atomics, b.atomics, DECIMAL_FRACTIONAL) {
        Ok(atomics) => Ok(Decimal { atomics }),
        Err(e) => Err(e),
    }
}

/// `a / b`, rounded down; `DivideByZero` when `b` is 0, `Overflow` when the
/// quotient needs more than 128 bits.
pub fn decimal_division_in_256(a: Decimal, b: Decimal) -> (result: Result<Decimal, ContractError>)
    ensures
        result == decimal_quotient(a, b),
{
    match checked_multiply_ratio(a.atomics, DECIMAL_FRACTIONAL, b.atomics) {
        Ok(atomics) => Ok(Decimal { atomics }),
        Err(e) => Err(e),
    }
}

} // verus!
