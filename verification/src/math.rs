//! Fixed-point ratios with eighteen fractional digits and floor rounding.

use vstd::prelude::*;

verus! {

/// Number of atomic units in one whole: `10^18`.
pub const DECIMAL_FRACTIONAL: u128 = 1_000_000_000_000_000_000u128;

/// A non-negative fixed-point number, held as a count of atomic units of
/// `10^-18`.
#[derive(Clone, Copy, Debug, PartialEq, Eq, Structural)]
pub struct Decimal {
    pub atomics: u128,
}

/// Floor of `numerator / denominator`, in atomic units.
pub open spec fn ratio_atomics(numerator: int, denominator: int) -> int {
    numerator * DECIMAL_FRACTIONAL as int / denominator
}

/// Floor of `amount` times the ratio of `atomics` atomic units.
pub open spec fn scaled_amount(amount: int, atomics: int) -> int {
    amount * atomics / DECIMAL_FRACTIONAL as int
}

/// Calls `cosmwasm_std::Decimal::checked_from_ratio`. That function fails on
/// a zero denominator, multiplies the numerator by `10^18` in 256 bits,
/// divides by the denominator rounding down, and fails when the quotient does
/// not fit in 128 bits; the contract says exactly that.
#[verifier::external_body]
pub(crate) fn checked_from_ratio(numerator: u128, denominator: u128) -> (ratio: Option<Decimal>)
    ensures
        match ratio {
            Some(value) => denominator != 0 && value.atomics == ratio_atomics(
                numerator as int,
                denominator as int,
            ),
            None => denominator == 0 || ratio_atomics(numerator as int, denominator as int)
                > u128::MAX,
        },
{
    match cosmwasm_std::Decimal::checked_from_ratio(numerator, denominator) {
        Ok(value) => Some(Decimal { atomics: value.atomics().u128() }),
        Err(_) => None,
    }
}

/// Calls `cosmwasm_std::Uint128::checked_mul_floor` with a
/// `cosmwasm_std::Decimal` as the fraction. That function multiplies the
/// amount by the ratio's atomic units in 256 bits, divides by `10^18` rounding
/// down, and fails when the quotient does not fit in 128 bits; the contract
/// says exactly that.
#[verifier::external_body]
pub(crate) fn checked_mul_floor(amount: u128, ratio: Decimal) -> (product: Option<u128>)
    ensures
        match product {
            Some(value) => value == scaled_amount(amount as int, ratio.atomics as int),
            None => scaled_amount(amount as int, ratio.atomics as int) > u128::MAX,
        },
{
    let fraction = cosmwasm_std::Decimal::raw(ratio.atomics);
    match cosmwasm_std::Uint128::new(amount).checked_mul_floor(fraction) {
        Ok(value) => Some(value.u128()),
        Err(_) => None,
    }
}

/// A floored ratio is never negative, and multiplied back by its denominator
/// it does not exceed the scaled numerator.
pub proof fn lemma_ratio_bounds(numerator: int, denominator: int)
    requires
        numerator >= 0,
        denominator > 0,
    ensures
        0 <= ratio_atomics(numerator, denominator),
        ratio_atomics(numerator, denominator) * denominator <= numerator * DECIMAL_FRACTIONAL,
{
    let scaled = numerator * DECIMAL_FRACTIONAL as int;
    assert(scaled >= 0) by (nonlinear_arith)
        requires
            numerator >= 0,
            scaled == numerator * 1_000_000_000_000_000_000int,
    ;
    assert(0 <= scaled / denominator && (scaled / denominator) * denominator <= scaled)
        by (nonlinear_arith)
        requires
            scaled >= 0,
            denominator > 0,
    ;
}

/// Scaling a non-negative amount by a non-negative ratio gives a non-negative
/// amount, and one that grows with the amount.
pub proof fn lemma_scaled_monotonic(small: int, large: int, atomics: int)
    requires
        0 <= small <= large,
        0 <= atomics,
    ensures
        0 <= scaled_amount(small, atomics) <= scaled_amount(large, atomics),
{
    assert(0 <= small * atomics <= large * atomics) by (nonlinear_arith)
        requires
            0 <= small <= large,
            0 <= atomics,
    ;
}

} // verus!
