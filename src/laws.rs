//! Properties that hold across the engine's operations.

use crate::arith::{lemma_div_ge_bound, lemma_div_lt_bound, lemma_div_mul_le, lemma_mul_div_le_left};
use crate::decimal::{frac, ratio_atomics, scale, Decimal, PoolFee};
use crate::error::ContractError;
use crate::liquidity::{deposit_outcome, MINIMUM_LIQUIDITY_AMOUNT};
use crate::spread::{expected_return, implied_spread, max_spread_outcome, normalized};
use crate::swap_math::{offer_outcome, raw_return, spot_value, swap_outcome};
use vstd::arithmetic::mul::{lemma_mul_inequality, lemma_mul_is_distributive_sub};
use vstd::prelude::*;

verus! {

/// A swap never shrinks the product of the reserves. When offering `offer_amount` to
/// reserves `offer_pool` and `ask_pool` succeeds, the ask side pays out the return plus
/// the protocol and burn fees, which is at most its reserve, and
/// `(offer_pool + offer_amount) * (ask_pool - paid_out) >= offer_pool * ask_pool`.
pub proof fn lemma_swap_keeps_product(offer_pool: nat, ask_pool: nat, offer_amount: nat, fees: PoolFee)
    requires
        swap_outcome(offer_pool, ask_pool, offer_amount, fees) is Ok,
    ensures
        ({
            let c = swap_outcome(offer_pool, ask_pool, offer_amount, fees)->Ok_0;
            let paid = c.return_amount + c.protocol_fee_amount + c.burn_fee_amount;
            &&& paid <= ask_pool
            &&& (offer_pool + offer_amount) * (ask_pool - paid) >= offer_pool * ask_pool
        }),
{
    let c = swap_outcome(offer_pool, ask_pool, offer_amount, fees)->Ok_0;
    let paid = c.return_amount + c.protocol_fee_amount + c.burn_fee_amount;
    let raw = raw_return(offer_pool, ask_pool, offer_amount);
    let total = offer_pool + offer_amount;
    lemma_mul_div_le_left(ask_pool, offer_amount, total);
    assert(paid <= raw);
    lemma_div_mul_le(ask_pool * offer_amount, total);
    lemma_mul_inequality((ask_pool - raw) as int, (ask_pool - paid) as int, total as int);
    lemma_mul_is_distributive_sub(total as int, ask_pool as int, raw as int);
    assert(raw * total == total * raw) by (nonlinear_arith);
    assert(total * ask_pool == offer_pool * ask_pool + offer_amount * ask_pool) by (nonlinear_arith)
        requires
            total == offer_pool + offer_amount,
    ;
    assert(ask_pool * offer_amount == offer_amount * ask_pool) by (nonlinear_arith);
    assert((ask_pool - paid) * total == total * (ask_pool - paid)) by (nonlinear_arith);
    assert((ask_pool - raw) * total == total * (ask_pool - raw)) by (nonlinear_arith);
}

/// The spread guard's boundary, on amounts already brought to one decimal scale. With a
/// belief price, a swap short of the expected return whose implied spread equals the bound
/// passes, and one whose implied spread exceeds it is rejected. Without a belief price the
/// same holds of the pool's spread ratio `spread / (return + spread)`.
pub proof fn lemma_max_spread_boundary(
    belief_price: Option<Decimal>,
    max_spread: Decimal,
    offer: nat,
    ret: nat,
    spread: nat,
    offer_decimal: nat,
    return_decimal: nat,
)
    requires
        normalized(offer, ret, spread, offer_decimal, return_decimal) is Ok,
    ensures
        ({
            let (o, t, sp) = normalized(offer, ret, spread, offer_decimal, return_decimal)->Ok_0;
            let outcome = max_spread_outcome(
                belief_price,
                Some(max_spread),
                offer,
                ret,
                spread,
                offer_decimal,
                return_decimal,
            );
            &&& belief_price matches Some(b) ==> ((b@ > 0 && t < expected_return(o, b@)) ==> {
                &&& implied_spread(o, t, b@) == max_spread@ ==> outcome == Ok::<(), ContractError>(())
                &&& implied_spread(o, t, b@) > max_spread@ ==> outcome == Err::<(), ContractError>(
                    ContractError::MaxSpreadAssertion,
                )
            })
            &&& (belief_price is None && t + sp > 0) ==> {
                &&& ratio_atomics(sp, t + sp) == max_spread@ ==> outcome == Ok::<(), ContractError>(())
                &&& ratio_atomics(sp, t + sp) > max_spread@ ==> outcome == Err::<(), ContractError>(
                    ContractError::MaxSpreadAssertion,
                )
            }
        }),
{
}

/// The first deposit into a pool: with no shares out, a deposit whose smaller side is at
/// most the locked minimum is rejected; any larger one is accepted, locks exactly the
/// minimum, and mints the rest of the smaller side to the depositor.
pub proof fn lemma_bootstrap(p0: u128, p1: u128, d0: u128, d1: u128)
    requires
        d0 > 0,
        d1 > 0,
    ensures
        ({
            let initial = if d0 <= d1 { d0 } else { d1 };
            let outcome = deposit_outcome(0, p0 as nat, p1 as nat, d0 as nat, d1 as nat);
            &&& initial <= MINIMUM_LIQUIDITY_AMOUNT ==> outcome == Err::<
                crate::liquidity::LiquidityComputation,
                ContractError,
            >(ContractError::InvalidInitialLiquidityAmount(MINIMUM_LIQUIDITY_AMOUNT))
            &&& initial > MINIMUM_LIQUIDITY_AMOUNT ==> (outcome matches Ok(c) && c.locked_shares
                == MINIMUM_LIQUIDITY_AMOUNT && c.minted_shares + MINIMUM_LIQUIDITY_AMOUNT == initial)
        }),
{
}

/// Without fees, asking for what a swap returned never costs more than was offered:
/// when `compute_swap` of `offer_amount` returns `r` and `compute_offer_amount` of `r`
/// against the same reserves succeeds, the offer it names is at most `offer_amount`.
pub proof fn lemma_offer_round_trip_fee_free(offer_pool: u128, ask_pool: u128, offer_amount: u128, fees: PoolFee)
    requires
        fees.total_share() == 0,
        swap_outcome(offer_pool as nat, ask_pool as nat, offer_amount as nat, fees) is Ok,
        offer_outcome(
            offer_pool as nat,
            ask_pool as nat,
            swap_outcome(offer_pool as nat, ask_pool as nat, offer_amount as nat, fees)->Ok_0.return_amount as nat,
            fees,
        ) is Ok,
    ensures
        offer_outcome(
            offer_pool as nat,
            ask_pool as nat,
            swap_outcome(offer_pool as nat, ask_pool as nat, offer_amount as nat, fees)->Ok_0.return_amount as nat,
            fees,
        )->Ok_0.offer_amount <= offer_amount,
{
    let (offer_pool, ask_pool, offer_amount) = (offer_pool as nat, ask_pool as nat, offer_amount as nat);
    let raw = raw_return(offer_pool, ask_pool, offer_amount);
    let total = offer_pool + offer_amount;
    lemma_mul_div_le_left(ask_pool, offer_amount, total);
    let c = swap_outcome(offer_pool as nat, ask_pool as nat, offer_amount as nat, fees)->Ok_0;
    assert(fees.swap_fee.share@ == 0 && fees.protocol_fee.share@ == 0 && fees.burn_fee.share@ == 0);
    assert(scale(raw, 0) == 0);
    assert(c.return_amount == raw);
    assert(ratio_atomics(frac(), frac()) == frac()) by {
        vstd::arithmetic::div_mod::lemma_div_by_multiple(frac() as int, frac() as int);
    }
    assert(scale(raw, frac()) == raw) by {
        vstd::arithmetic::div_mod::lemma_div_by_multiple(raw as int, frac() as int);
    }
    let remaining = (ask_pool - raw) as nat;
    lemma_div_mul_le(ask_pool * offer_amount, total);
    assert(remaining * total >= offer_pool * ask_pool) by (nonlinear_arith)
        requires
            raw * total <= ask_pool * offer_amount,
            remaining == ask_pool - raw,
            total == offer_pool + offer_amount,
            raw <= ask_pool,
    ;
    assert(offer_pool * ask_pool < (total + 1) * remaining) by (nonlinear_arith)
        requires
            remaining * total >= offer_pool * ask_pool,
            remaining > 0,
    ;
    lemma_div_lt_bound(offer_pool * ask_pool, remaining, total);
    assert(crate::swap_math::before_fee_amount(raw, 0) == raw);
    let o = offer_outcome(offer_pool, ask_pool, raw, fees);
    assert(o is Ok);
    assert(o->Ok_0.offer_amount == (offer_pool * ask_pool / remaining - offer_pool) as nat);
    assert(offer_pool * remaining <= offer_pool * ask_pool) by (nonlinear_arith)
        requires
            remaining <= ask_pool,
    ;
    lemma_div_ge_bound(offer_pool * ask_pool, remaining, offer_pool);
}

/// A swap on a non-empty offer pool with valid fees (shares summing below one) fails only
/// when its spread needs more than 128 bits; the return and each fee then never exceed the
/// ask reserve.
pub proof fn lemma_swap_fails_only_on_spread(offer_pool: u128, ask_pool: u128, offer_amount: u128, fees: PoolFee)
    requires
        offer_pool > 0,
        fees.valid(),
    ensures
        ({
            let (op, ap, oa) = (offer_pool as nat, ask_pool as nat, offer_amount as nat);
            let raw = raw_return(op, ap, oa);
            let at_spot = spot_value(op, ap, oa);
            let outcome = swap_outcome(op, ap, oa, fees);
            &&& outcome is Err <==> (at_spot > raw && at_spot - raw > u128::MAX)
            &&& outcome matches Ok(c) ==> c.return_amount <= ask_pool && c.swap_fee_amount <= ask_pool
                && c.protocol_fee_amount <= ask_pool && c.burn_fee_amount <= ask_pool
        }),
{
    let (op, ap, oa) = (offer_pool as nat, ask_pool as nat, offer_amount as nat);
    let raw = raw_return(op, ap, oa);
    lemma_mul_div_le_left(ap, oa, op + oa);
    let (fs, fp, fb) = (fees.swap_fee.share@, fees.protocol_fee.share@, fees.burn_fee.share@);
    let (a, b, c) = (raw * fs, raw * fp, raw * fb);
    lemma_div_mul_le(a, frac());
    lemma_div_mul_le(b, frac());
    lemma_div_mul_le(c, frac());
    assert((a / frac() + b / frac() + c / frac()) * frac() <= a + b + c) by (nonlinear_arith)
        requires
            (a / frac()) * frac() <= a,
            (b / frac()) * frac() <= b,
            (c / frac()) * frac() <= c,
    ;
    lemma_div_ge_bound(a + b + c, frac(), a / frac() + b / frac() + c / frac());
    assert(a + b + c == raw * (fs + fp + fb)) by (nonlinear_arith)
        requires
            a == raw * fs,
            b == raw * fp,
            c == raw * fb,
    ;
    lemma_mul_div_le_left(raw, fs + fp + fb, frac());
}

} // verus!
