//! Fixed-point fractions with 18 decimal places, and the fee model built on them.

use crate::arith::{lemma_div_le, lemma_mul_lt};
use crate::error::ContractError;
use crate::wide::{checked_multiply_ratio, half_base, wide_bound, U256};
use vstd::prelude::*;

verus! {

/// Atomic units in one whole: a fraction is held as `atomics / 10^18`.
pub const DECIMAL_FRACTIONAL: u128 = 1_000_000_000_000_000_000;

pub open spec fn frac() -> nat {
    1_000_000_000_000_000_000nat
}

/// The atomics of `n / d` at 18 decimal places, truncated.
pub open spec fn ratio_atomics(n: nat, d: nat) -> nat {
    n * frac() / d
}

/// `a` multiplied by the fraction whose atomics are `b`, truncated.
pub open spec fn scale(a: nat, b: nat) -> nat {
    a * b / frac()
}

/// A non-negative fraction with 18 decimal places.
#[derive(Clone, Copy, Debug, PartialEq, Eq, Structural)]
pub struct Decimal {
    pub atomics: u128,
}

impl View for Decimal {
    type V = nat;

    open spec fn view(&self) -> nat {
        self.atomics as nat
    }
}

impl Decimal {
    pub fn zero() -> (r: Decimal)
        ensures
            r@ == 0,
    {
        Decimal { atomics: 0 }
    }

    pub fn one() -> (r: Decimal)
        ensures
            r@ == frac(),
    {
        Decimal { atomics: DECIMAL_FRACTIONAL }
    }

    /// `x / 100`.
    pub fn percent(x: u64) -> (r: Decimal)
        ensures
            r@ == x * 10_000_000_000_000_000,
    {
        Decimal { atomics: x as u128 * 10_000_000_000_000_000 }
    }

    /// `x / 1000`.
    pub fn permille(x: u64) -> (r: Decimal)
        ensures
            r@ == x * 1_000_000_000_000_000,
    {
        Decimal { atomics: x as u128 * 1_000_000_000_000_000 }
    }

    /// The fraction `atomics / 10^18`.
    pub fn raw(atomics: u128) -> (r: Decimal)
        ensures
            r@ == atomics,
    {
        Decimal { atomics }
    }
}

pub(crate) fn fractional() -> (r: U256)
    ensures
        r@ == frac(),
{
    U256::from_u128(DECIMAL_FRACTIONAL)
}

/// The fraction `n / d` as 256-bit atomics.
pub fn from_ratio(n: U256, d: U256) -> (r: Result<U256, ContractError>)
    ensures
        d@ == 0 ==> r == Err::<U256, ContractError>(ContractError::DivideByZero),
        d@ != 0 && ratio_atomics(n@, d@) >= wide_bound() ==> r == Err::<U256, ContractError>(
            ContractError::Overflow,
        ),
        d@ != 0 && ratio_atomics(n@, d@) < wide_bound() ==> (r matches Ok(q) && q@
            == ratio_atomics(n@, d@)),
{
    if d.is_zero() {
        return Err(ContractError::DivideByZero);
    }
    match checked_multiply_ratio(n, fractional(), d) {
        Some(q) => Ok(q),
        None => Err(ContractError::Overflow),
    }
}

/// `a` times the fraction with atomics `b`, truncated.
pub fn scale_by(a: U256, b: U256) -> (r: Result<U256, ContractError>)
    ensures
        scale(a@, b@) >= wide_bound() ==> r == Err::<U256, ContractError>(ContractError::Overflow),
        scale(a@, b@) < wide_bound() ==> (r matches Ok(q) && q@ == scale(a@, b@)),
{
    match checked_multiply_ratio(a, b, fractional()) {
        Some(q) => Ok(q),
        None => Err(ContractError::Overflow),
    }
}

/// A fee: a share of the amount it is taken from.
#[derive(Clone, Copy, Debug, PartialEq, Eq, Structural)]
pub struct Fee {
    pub share: Decimal,
}

impl Fee {
    /// `floor(share * amount)`.
    pub fn compute(&self, amount: u128) -> (r: U256)
        ensures
            r@ == scale(amount as nat, self.share@),
    {
        proof {
            lemma_mul_lt(amount as nat, self.share@, half_base(), half_base());
            lemma_div_le(amount as nat * self.share@, frac());
        }
        match checked_multiply_ratio(U256::from_u128(amount), U256::from_u128(self.share.atomics), fractional()) {
            Some(q) => q,
            None => U256::zero(),
        }
    }
}

/// The fees taken from every swap, each from the same pre-fee amount.
#[derive(Clone, Copy, Debug, PartialEq, Eq, Structural)]
pub struct PoolFee {
    pub protocol_fee: Fee,
    pub swap_fee: Fee,
    pub burn_fee: Fee,
}

impl PoolFee {
    /// The three shares together, as atomics.
    pub open spec fn total_share(&self) -> nat {
        self.swap_fee.share@ + self.protocol_fee.share@ + self.burn_fee.share@
    }

    /// The shares add up to less than one.
    pub open spec fn valid(&self) -> bool {
        self.total_share() < frac()
    }

    pub fn is_valid(&self) -> (r: bool)
        ensures
            r == self.valid(),
    {
        let s = self.swap_fee.share.atomics;
        let p = self.protocol_fee.share.atomics;
        let b = self.burn_fee.share.atomics;
        s < DECIMAL_FRACTIONAL && p < DECIMAL_FRACTIONAL - s && b < DECIMAL_FRACTIONAL - s - p
    }
}

} // verus!
