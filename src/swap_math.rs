//! Constant-product pricing: what a swap returns, and what it takes to get a given amount.

use crate::arith::{lemma_div_ge_bound, lemma_div_le, lemma_div_mono, lemma_mul_div_le_left, lemma_mul_lt};
use crate::decimal::{
    frac, fractional, from_ratio, ratio_atomics, scale, scale_by, PoolFee, DECIMAL_FRACTIONAL,
};
use crate::error::ContractError;
use crate::wide::{checked_multiply_ratio, half_base, wide_bound, U256};
use vstd::arithmetic::div_mod::lemma_div_by_multiple;
use vstd::arithmetic::mul::{lemma_mul_inequality, lemma_mul_is_commutative};
use vstd::prelude::*;

verus! {

/// What a swap hands out, and the parts taken from it.
#[derive(Clone, Copy, Debug, PartialEq, Eq, Structural)]
pub struct SwapComputation {
    pub return_amount: u128,
    pub spread_amount: u128,
    pub swap_fee_amount: u128,
    pub protocol_fee_amount: u128,
    pub burn_fee_amount: u128,
}

/// What must be offered for a wished-for return, and the parts taken on the way.
#[derive(Clone, Copy, Debug, PartialEq, Eq, Structural)]
pub struct OfferAmountComputation {
    pub offer_amount: u128,
    pub spread_amount: u128,
    pub swap_fee_amount: u128,
    pub protocol_fee_amount: u128,
    pub burn_fee_amount: u128,
}

/// The pre-fee return that keeps `offer_pool * ask_pool` constant, truncated.
pub open spec fn raw_return(offer_pool: nat, ask_pool: nat, offer_amount: nat) -> nat {
    ask_pool * offer_amount / (offer_pool + offer_amount)
}

/// The offer valued at the pre-trade spot price `ask_pool / offer_pool`.
pub open spec fn spot_value(offer_pool: nat, ask_pool: nat, offer_amount: nat) -> nat {
    scale(offer_amount, ratio_atomics(ask_pool, offer_pool))
}

/// The outcome of offering `offer_amount` to a pool with reserves `offer_pool` and `ask_pool`.
/// It fails only on an empty offer pool, on fees that together exceed the pre-fee return
/// (shares summing above one), or on a spread beyond 128 bits.
pub open spec fn swap_outcome(offer_pool: nat, ask_pool: nat, offer_amount: nat, fees: PoolFee) -> Result<
    SwapComputation,
    ContractError,
> {
    if offer_pool == 0 {
        Err(ContractError::DivideByZero)
    } else {
        let raw = raw_return(offer_pool, ask_pool, offer_amount);
        let at_spot = spot_value(offer_pool, ask_pool, offer_amount);
        let swap_fee = scale(raw, fees.swap_fee.share@);
        let protocol_fee = scale(raw, fees.protocol_fee.share@);
        let burn_fee = scale(raw, fees.burn_fee.share@);
        let spread = if at_spot > raw {
            (at_spot - raw) as nat
        } else {
            0
        };
        if swap_fee + protocol_fee + burn_fee > raw {
            Err(ContractError::Overflow)
        } else if spread > u128::MAX {
            Err(ContractError::ConversionOverflow)
        } else {
            Ok(
                SwapComputation {
                    return_amount: (raw - swap_fee - protocol_fee - burn_fee) as u128,
                    spread_amount: spread as u128,
                    swap_fee_amount: swap_fee as u128,
                    protocol_fee_amount: protocol_fee as u128,
                    burn_fee_amount: burn_fee as u128,
                },
            )
        }
    }
}

/// Computes the return of offering `offer_amount` against reserves `offer_pool` and `ask_pool`:
/// the constant-product return less the swap, protocol and burn fees, each taken from the
/// pre-fee return, and the spread against the spot price. The spot price is truncated to 18
/// decimals; where that puts the offer's spot value below the raw return, the spread is zero.
pub fn compute_swap(offer_pool: u128, ask_pool: u128, offer_amount: u128, pool_fees: PoolFee) -> (r:
    Result<SwapComputation, ContractError>)
    ensures
        r == swap_outcome(offer_pool as nat, ask_pool as nat, offer_amount as nat, pool_fees),
{
    if offer_pool == 0 {
        return Err(ContractError::DivideByZero);
    }
    let op = U256::from_u128(offer_pool);
    let ap = U256::from_u128(ask_pool);
    let oa = U256::from_u128(offer_amount);
    let ghost (opn, apn, oan) = (offer_pool as nat, ask_pool as nat, offer_amount as nat);

    let denom = match op.checked_add(oa) {
        Some(d) => d,
        None => return Err(ContractError::Overflow),
    };
    proof {
        lemma_mul_div_le_left(apn, oan, opn + oan);
    }
    let raw = match checked_multiply_ratio(ap, oa, denom) {
        Some(q) => q,
        None => return Err(ContractError::Overflow),
    };
    let raw128 = match raw.to_u128() {
        Some(x) => x,
        None => return Err(ContractError::ConversionOverflow),
    };

    proof {
        lemma_div_le(apn * frac(), opn);
        lemma_mul_lt(apn, frac(), half_base(), half_base());
    }
    let rate = match from_ratio(ap, op) {
        Ok(q) => q,
        Err(e) => return Err(e),
    };
    proof {
        lemma_mul_inequality(rate@ as int, (apn * frac()) as int, oan as int);
        lemma_mul_is_commutative(rate@ as int, oan as int);
        assert(oan * (apn * frac()) == (oan * apn) * frac()) by (nonlinear_arith);
        lemma_div_mono(oan * rate@, (oan * apn) * frac(), frac());
        lemma_div_by_multiple((oan * apn) as int, frac() as int);
        lemma_mul_lt(oan, apn, half_base(), half_base());
    }
    let at_spot = match scale_by(oa, rate) {
        Ok(q) => q,
        Err(e) => return Err(e),
    };
    let spread = if raw.lt(at_spot) {
        at_spot.checked_sub(raw).unwrap()
    } else {
        U256::zero()
    };

    let swap_fee = pool_fees.swap_fee.compute(raw128);
    let protocol_fee = pool_fees.protocol_fee.compute(raw128);
    let burn_fee = pool_fees.burn_fee.compute(raw128);
    let after_swap = match raw.checked_sub(swap_fee) {
        Some(x) => x,
        None => return Err(ContractError::Overflow),
    };
    let after_protocol = match after_swap.checked_sub(protocol_fee) {
        Some(x) => x,
        None => return Err(ContractError::Overflow),
    };
    let return_amount = match after_protocol.checked_sub(burn_fee) {
        Some(x) => x,
        None => return Err(ContractError::Overflow),
    };

    let spread_amount = match spread.to_u128() {
        Some(x) => x,
        None => return Err(ContractError::ConversionOverflow),
    };
    Ok(
        SwapComputation {
            return_amount: return_amount.to_u128().unwrap(),
            spread_amount,
            swap_fee_amount: swap_fee.to_u128().unwrap(),
            protocol_fee_amount: protocol_fee.to_u128().unwrap(),
            burn_fee_amount: burn_fee.to_u128().unwrap(),
        },
    )
}

/// The pre-fee ask amount needed for `ask_amount` to remain after fees whose shares total
/// `total_share`: `ask_amount * floor(1 / (1 - total_share))` at 18 decimal places.
pub open spec fn before_fee_amount(ask_amount: nat, total_share: nat) -> nat {
    scale(ask_amount, ratio_atomics(frac(), (frac() - total_share) as nat))
}

/// The outcome of asking for `ask_amount` from a pool with reserves `offer_pool` and `ask_pool`.
pub open spec fn offer_outcome(offer_pool: nat, ask_pool: nat, ask_amount: nat, fees: PoolFee) -> Result<
    OfferAmountComputation,
    ContractError,
> {
    let total = fees.total_share();
    if total > frac() {
        Err(ContractError::Overflow)
    } else if total == frac() {
        Err(ContractError::DivideByZero)
    } else {
        let before_fee = before_fee_amount(ask_amount, total);
        if before_fee > ask_pool {
            Err(ContractError::Overflow)
        } else if before_fee == ask_pool {
            Err(ContractError::DivideByZero)
        } else if offer_pool == 0 {
            Err(ContractError::DivideByZero)
        } else {
            let offer = (offer_pool * ask_pool / ((ask_pool - before_fee) as nat) - offer_pool) as nat;
            let before_spread = scale(offer, ratio_atomics(ask_pool, offer_pool));
            let spread = if before_spread > before_fee {
                (before_spread - before_fee) as nat
            } else {
                0
            };
            if before_spread >= wide_bound() {
                Err(ContractError::Overflow)
            } else if offer > u128::MAX || spread > u128::MAX {
                Err(ContractError::ConversionOverflow)
            } else {
                Ok(
                    OfferAmountComputation {
                        offer_amount: offer as u128,
                        spread_amount: spread as u128,
                        swap_fee_amount: scale(before_fee, fees.swap_fee.share@) as u128,
                        protocol_fee_amount: scale(before_fee, fees.protocol_fee.share@) as u128,
                        burn_fee_amount: scale(before_fee, fees.burn_fee.share@) as u128,
                    },
                )
            }
        }
    }
}

/// Computes the offer needed to receive `ask_amount` after fees from reserves `offer_pool`
/// and `ask_pool`; fails when the pool cannot pay that much out.
pub fn compute_offer_amount(offer_pool: u128, ask_pool: u128, ask_amount: u128, pool_fees: PoolFee) -> (r:
    Result<OfferAmountComputation, ContractError>)
    ensures
        r == offer_outcome(offer_pool as nat, ask_pool as nat, ask_amount as nat, pool_fees),
{
    let s = pool_fees.swap_fee.share.atomics;
    let p = pool_fees.protocol_fee.share.atomics;
    let b = pool_fees.burn_fee.share.atomics;
    if s > DECIMAL_FRACTIONAL || p > DECIMAL_FRACTIONAL - s || b > DECIMAL_FRACTIONAL - s - p {
        return Err(ContractError::Overflow);
    }
    let one_minus = DECIMAL_FRACTIONAL - s - p - b;
    if one_minus == 0 {
        return Err(ContractError::DivideByZero);
    }
    let ghost (opn, apn, askn) = (offer_pool as nat, ask_pool as nat, ask_amount as nat);
    proof {
        lemma_div_le(frac() * frac(), one_minus as nat);
        assert(frac() * frac() < half_base());
    }
    let inv = match from_ratio(fractional(), U256::from_u128(one_minus)) {
        Ok(q) => q,
        Err(e) => return Err(e),
    };
    proof {
        lemma_mul_lt(askn, inv@, half_base(), half_base());
        lemma_div_le(askn * inv@, frac());
    }
    let before_fee = match scale_by(U256::from_u128(ask_amount), inv) {
        Ok(q) => q,
        Err(e) => return Err(e),
    };
    let ap = U256::from_u128(ask_pool);
    let op = U256::from_u128(offer_pool);
    let remaining = match ap.checked_sub(before_fee) {
        Some(x) => x,
        None => return Err(ContractError::Overflow),
    };
    if remaining.is_zero() {
        return Err(ContractError::DivideByZero);
    }
    if offer_pool == 0 {
        return Err(ContractError::DivideByZero);
    }
    proof {
        lemma_mul_lt(opn, apn, half_base(), half_base());
        lemma_div_le(opn * apn, 1);
    }
    let cp = match checked_multiply_ratio(op, ap, U256::from_u128(1)) {
        Some(q) => q,
        None => return Err(ContractError::Overflow),
    };
    proof {
        lemma_div_le(cp@, remaining@);
        assert(1 * cp@ == cp@);
    }
    let q = match checked_multiply_ratio(U256::from_u128(1), cp, remaining) {
        Some(q) => q,
        None => return Err(ContractError::Overflow),
    };
    proof {
        lemma_mul_inequality(remaining@ as int, apn as int, opn as int);
        lemma_mul_is_commutative(remaining@ as int, opn as int);
        lemma_mul_is_commutative(apn as int, opn as int);
        lemma_div_ge_bound(opn * apn, remaining@, opn);
    }
    let offer = match q.checked_sub(op) {
        Some(x) => x,
        None => return Err(ContractError::Overflow),
    };
    proof {
        lemma_div_le(apn * frac(), opn);
        lemma_mul_lt(apn, frac(), half_base(), half_base());
    }
    let rate = match from_ratio(ap, op) {
        Ok(q) => q,
        Err(e) => return Err(e),
    };
    let before_spread = match scale_by(offer, rate) {
        Ok(q) => q,
        Err(e) => return Err(e),
    };
    let spread = if before_fee.lt(before_spread) {
        before_spread.checked_sub(before_fee).unwrap()
    } else {
        U256::zero()
    };
    let bf128 = before_fee.to_u128().unwrap();
    let swap_fee = pool_fees.swap_fee.compute(bf128);
    let protocol_fee = pool_fees.protocol_fee.compute(bf128);
    let burn_fee = pool_fees.burn_fee.compute(bf128);
    proof {
        lemma_mul_div_le_left(bf128 as nat, pool_fees.swap_fee.share@, frac());
        lemma_mul_div_le_left(bf128 as nat, pool_fees.protocol_fee.share@, frac());
        lemma_mul_div_le_left(bf128 as nat, pool_fees.burn_fee.share@, frac());
    }
    let offer_amount = match offer.to_u128() {
        Some(x) => x,
        None => return Err(ContractError::ConversionOverflow),
    };
    let spread_amount = match spread.to_u128() {
        Some(x) => x,
        None => return Err(ContractError::ConversionOverflow),
    };
    Ok(
        OfferAmountComputation {
            offer_amount,
            spread_amount,
            swap_fee_amount: swap_fee.to_u128().unwrap(),
            protocol_fee_amount: protocol_fee.to_u128().unwrap(),
            burn_fee_amount: burn_fee.to_u128().unwrap(),
        },
    )
}

} // verus!
