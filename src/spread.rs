//! Guards on price impact: the spread of a swap and the ratio of a deposit.

use crate::arith::{lemma_div_le, lemma_mul_div_le_left, lemma_mul_lt};
use crate::asset::Asset;
use crate::decimal::{
    frac, fractional, from_ratio, ratio_atomics, scale, scale_by, Decimal, DECIMAL_FRACTIONAL,
};
use crate::error::ContractError;
use crate::wide::{half_base, U256};
use vstd::prelude::*;

verus! {

/// `10^n`.
pub open spec fn pow10(n: nat) -> nat
    decreases n,
{
    if n == 0 {
        1
    } else {
        10 * pow10((n - 1) as nat)
    }
}

/// `10^n` for an exponent of at most 18.
pub fn ten_pow(n: u8) -> (r: u64)
    requires
        n <= 18,
    ensures
        r == pow10(n as nat),
        r <= 1_000_000_000_000_000_000,
{
    let mut r: u64 = 1;
    let mut i: u8 = 0;
    proof {
        lemma_pow10_mono(0, 18);
    }
    while i < n
        invariant
            i <= n <= 18,
            r == pow10(i as nat),
            pow10(18) == 1_000_000_000_000_000_000,
        decreases n - i,
    {
        proof {
            lemma_pow10_mono(i as nat + 1, 18);
        }
        r = r * 10;
        i = i + 1;
    }
    proof {
        lemma_pow10_mono(n as nat, 18);
    }
    r
}

proof fn lemma_pow10_mono(a: nat, b: nat)
    requires
        a <= b,
    ensures
        pow10(a) <= pow10(b),
        pow10(18) == 1_000_000_000_000_000_000,
    decreases b - a,
{
    reveal_with_fuel(pow10, 19);
    if a < b {
        lemma_pow10_mono(a, (b - 1) as nat);
    }
}

/// The three amounts brought to the larger of the two decimal scales: the side with fewer
/// decimals is multiplied by `10^difference`.
pub open spec fn normalized(offer: nat, ret: nat, spread: nat, offer_decimal: nat, return_decimal: nat) -> Result<
    (nat, nat, nat),
    ContractError,
> {
    if offer_decimal > return_decimal {
        let f = pow10((offer_decimal - return_decimal) as nat);
        if ret * f > u128::MAX || spread * f > u128::MAX {
            Err(ContractError::Overflow)
        } else {
            Ok((offer, ret * f, spread * f))
        }
    } else if offer_decimal < return_decimal {
        let f = pow10((return_decimal - offer_decimal) as nat);
        if offer * f > u128::MAX {
            Err(ContractError::Overflow)
        } else {
            Ok((offer * f, ret, spread))
        }
    } else {
        Ok((offer, ret, spread))
    }
}

/// The return expected at the belief price `belief` (atomics): `offer * (1 / belief)`.
pub open spec fn expected_return(offer: nat, belief: nat) -> nat {
    scale(offer, ratio_atomics(frac(), belief))
}

/// The spread implied by a belief price: `(expected - ret) / expected`, as atomics.
pub open spec fn implied_spread(offer: nat, ret: nat, belief: nat) -> nat {
    let expected = expected_return(offer, belief);
    ratio_atomics((expected - ret) as nat, expected)
}

/// The verdict on normalized amounts.
pub open spec fn spread_verdict(
    belief_price: Option<Decimal>,
    max_spread: Option<Decimal>,
    offer: nat,
    ret: nat,
    spread: nat,
) -> Result<(), ContractError> {
    match (max_spread, belief_price) {
        (Some(m), Some(b)) => {
            if b@ == 0 {
                Err(ContractError::DivideByZero)
            } else if ret < expected_return(offer, b@) && implied_spread(offer, ret, b@) > m@ {
                Err(ContractError::MaxSpreadAssertion)
            } else {
                Ok(())
            }
        },
        (Some(m), None) => {
            if ret + spread == 0 {
                Err(ContractError::DivideByZero)
            } else if ratio_atomics(spread, ret + spread) > m@ {
                Err(ContractError::MaxSpreadAssertion)
            } else {
                Ok(())
            }
        },
        (None, _) => Ok(()),
    }
}

/// Brings the offer, return and spread amounts to one decimal scale.
pub fn normalize_amounts(
    offer_amount: u128,
    return_amount: u128,
    spread_amount: u128,
    offer_decimal: u8,
    return_decimal: u8,
) -> (r: Result<(u128, u128, u128), ContractError>)
    requires
        offer_decimal <= 18,
        return_decimal <= 18,
    ensures
        r is Ok <==> normalized(
            offer_amount as nat,
            return_amount as nat,
            spread_amount as nat,
            offer_decimal as nat,
            return_decimal as nat,
        ) is Ok,
        r matches Ok((o, t, s)) ==> normalized(
            offer_amount as nat,
            return_amount as nat,
            spread_amount as nat,
            offer_decimal as nat,
            return_decimal as nat,
        ) == Ok::<(nat, nat, nat), ContractError>((o as nat, t as nat, s as nat)),
        r matches Err(e) ==> e == ContractError::Overflow,
{
    if offer_decimal > return_decimal {
        let f = ten_pow(offer_decimal - return_decimal) as u128;
        match (return_amount.checked_mul(f), spread_amount.checked_mul(f)) {
            (Some(t), Some(s)) => Ok((offer_amount, t, s)),
            _ => Err(ContractError::Overflow),
        }
    } else if offer_decimal < return_decimal {
        let f = ten_pow(return_decimal - offer_decimal) as u128;
        match offer_amount.checked_mul(f) {
            Some(o) => Ok((o, return_amount, spread_amount)),
            None => Err(ContractError::Overflow),
        }
    } else {
        Ok((offer_amount, return_amount, spread_amount))
    }
}

/// The outcome of `assert_max_spread`.
pub open spec fn max_spread_outcome(
    belief_price: Option<Decimal>,
    max_spread: Option<Decimal>,
    offer: nat,
    ret: nat,
    spread: nat,
    offer_decimal: nat,
    return_decimal: nat,
) -> Result<(), ContractError> {
    match normalized(offer, ret, spread, offer_decimal, return_decimal) {
        Ok((o, t, s)) => spread_verdict(belief_price, max_spread, o, t, s),
        Err(e) => Err(e),
    }
}

/// Rejects a swap whose price impact exceeds the caller's bound. With a belief price the
/// bound applies to the shortfall against the return expected at that price; without one,
/// to the pool's own spread. With no bound at all, every swap passes.
pub fn assert_max_spread(
    belief_price: Option<Decimal>,
    max_spread: Option<Decimal>,
    offer_asset: Asset,
    return_asset: Asset,
    spread_amount: u128,
    offer_decimal: u8,
    return_decimal: u8,
) -> (r: Result<(), ContractError>)
    requires
        offer_decimal <= 18,
        return_decimal <= 18,
    ensures
        r == max_spread_outcome(
            belief_price,
            max_spread,
            offer_asset.amount as nat,
            return_asset.amount as nat,
            spread_amount as nat,
            offer_decimal as nat,
            return_decimal as nat,
        ),
{
    let (offer, ret, spread) = match normalize_amounts(
        offer_asset.amount,
        return_asset.amount,
        spread_amount,
        offer_decimal,
        return_decimal,
    ) {
        Ok(v) => v,
        Err(e) => return Err(e),
    };
    match (max_spread, belief_price) {
        (Some(m), Some(b)) => {
            if b.atomics == 0 {
                return Err(ContractError::DivideByZero);
            }
            proof {
                lemma_div_le(frac() * frac(), b@);
                assert(frac() * frac() < half_base());
            }
            let inv = match from_ratio(fractional(), U256::from_u128(b.atomics)) {
                Ok(q) => q,
                Err(e) => return Err(e),
            };
            proof {
                lemma_mul_lt(offer as nat, inv@, half_base(), half_base());
                lemma_div_le(offer as nat * inv@, frac());
            }
            let expected = match scale_by(U256::from_u128(offer), inv) {
                Ok(q) => q,
                Err(e) => return Err(e),
            };
            let t = U256::from_u128(ret);
            if t.lt(expected) {
                let short = expected.checked_sub(t).unwrap();
                proof {
                    lemma_mul_div_le_left(frac(), short@, expected@);
                    assert(short@ * frac() == frac() * short@) by (nonlinear_arith);
                }
                let implied = match from_ratio(short, expected) {
                    Ok(q) => q,
                    Err(e) => return Err(e),
                };
                if U256::from_u128(m.atomics).lt(implied) {
                    return Err(ContractError::MaxSpreadAssertion);
                }
            }
            Ok(())
        },
        (Some(m), None) => {
            let total = U256::from_u128(ret).checked_add(U256::from_u128(spread)).unwrap();
            if total.is_zero() {
                return Err(ContractError::DivideByZero);
            }
            proof {
                lemma_mul_div_le_left(frac(), spread as nat, total@);
                assert(spread as nat * frac() == frac() * spread as nat) by (nonlinear_arith);
            }
            let ratio = match from_ratio(U256::from_u128(spread), total) {
                Ok(q) => q,
                Err(e) => return Err(e),
            };
            if U256::from_u128(m.atomics).lt(ratio) {
                return Err(ContractError::MaxSpreadAssertion);
            }
            Ok(())
        },
        (None, _) => Ok(()),
    }
}

/// The outcome of `assert_slippage_tolerance` for deposits `d0, d1` into reserves `p0, p1`.
pub open spec fn slippage_outcome(tolerance: Option<Decimal>, d0: nat, d1: nat, p0: nat, p1: nat) -> Result<
    (),
    ContractError,
> {
    match tolerance {
        None => Ok(()),
        Some(t) => {
            if t@ > frac() {
                Err(ContractError::InvalidSlippageTolerance)
            } else {
                let keep = (frac() - t@) as nat;
                if d1 == 0 || p1 == 0 {
                    Err(ContractError::DivideByZero)
                } else if scale(ratio_atomics(d0, d1), keep) > ratio_atomics(p0, p1) {
                    Err(ContractError::MaxSlippageAssertion)
                } else if d0 == 0 || p0 == 0 {
                    Err(ContractError::DivideByZero)
                } else if scale(ratio_atomics(d1, d0), keep) > ratio_atomics(p1, p0) {
                    Err(ContractError::MaxSlippageAssertion)
                } else {
                    Ok(())
                }
            }
        },
    }
}

/// `ratio_atomics(a, b)` scaled by `keep`, and `ratio_atomics(c, e)`, for positive `b` and `e`.
fn scaled_ratios(a: u128, b: u128, c: u128, e: u128, keep: u128) -> (r: (U256, U256))
    requires
        b > 0,
        e > 0,
        keep <= frac(),
    ensures
        r.0@ == scale(ratio_atomics(a as nat, b as nat), keep as nat),
        r.1@ == ratio_atomics(c as nat, e as nat),
{
    proof {
        lemma_mul_lt(a as nat, frac(), half_base(), half_base());
        lemma_div_le(a as nat * frac(), b as nat);
        lemma_mul_lt(c as nat, frac(), half_base(), half_base());
        lemma_div_le(c as nat * frac(), e as nat);
    }
    let left = from_ratio(U256::from_u128(a), U256::from_u128(b)).unwrap();
    let right = from_ratio(U256::from_u128(c), U256::from_u128(e)).unwrap();
    proof {
        lemma_mul_div_le_left(left@, keep as nat, frac());
    }
    let scaled = scale_by(left, U256::from_u128(keep)).unwrap();
    (scaled, right)
}

/// Rejects a two-asset deposit whose ratio strays from the pool's ratio by more than
/// `slippage_tolerance`, in either direction. A tolerance above one is a configuration
/// error; with no tolerance every deposit passes.
pub fn assert_slippage_tolerance(
    slippage_tolerance: &Option<Decimal>,
    deposits: &[u128; 2],
    pools: &[Asset; 2],
) -> (r: Result<(), ContractError>)
    ensures
        r == slippage_outcome(
            *slippage_tolerance,
            deposits[0] as nat,
            deposits[1] as nat,
            pools[0].amount as nat,
            pools[1].amount as nat,
        ),
{
    check_slippage(*slippage_tolerance, deposits[0], deposits[1], pools[0].amount, pools[1].amount)
}

/// `assert_slippage_tolerance` on plain amounts.
pub fn check_slippage(tolerance: Option<Decimal>, d0: u128, d1: u128, p0: u128, p1: u128) -> (r: Result<
    (),
    ContractError,
>)
    ensures
        r == slippage_outcome(tolerance, d0 as nat, d1 as nat, p0 as nat, p1 as nat),
{
    match tolerance {
        None => Ok(()),
        Some(t) => {
            if t.atomics > DECIMAL_FRACTIONAL {
                return Err(ContractError::InvalidSlippageTolerance);
            }
            let keep = DECIMAL_FRACTIONAL - t.atomics;
            if d1 == 0 || p1 == 0 {
                return Err(ContractError::DivideByZero);
            }
            let (a, b) = scaled_ratios(d0, d1, p0, p1, keep);
            if b.lt(a) {
                return Err(ContractError::MaxSlippageAssertion);
            }
            if d0 == 0 || p0 == 0 {
                return Err(ContractError::DivideByZero);
            }
            let (c, e) = scaled_ratios(d1, d0, p1, p0, keep);
            if e.lt(c) {
                return Err(ContractError::MaxSlippageAssertion);
            }
            Ok(())
        },
    }
}

} // verus!
