//! Share accounting: shares minted for deposits and assets returned for burned shares.

use crate::arith::{lemma_div_mono, lemma_div_mul_le, lemma_mul_div_le_left, lemma_mul_lt};
use crate::error::ContractError;
use crate::wide::{checked_multiply_ratio, half_base, U256};
use vstd::arithmetic::mul::{lemma_mul_inequality, lemma_mul_is_commutative};
use vstd::prelude::*;

verus! {

/// Shares locked for good by the first deposit into a pool.
pub const MINIMUM_LIQUIDITY_AMOUNT: u128 = 1_000;

/// How much of a deposit is taken in, and the shares it yields.
#[derive(Clone, Copy, Debug, PartialEq, Eq)]
pub struct LiquidityComputation {
    /// The part of each offered amount that the shares pay for.
    pub accepted_amounts: (u128, u128),
    /// Shares credited to the depositor's receiver.
    pub minted_shares: u128,
    /// Shares minted to nobody, locked in the pool for good.
    pub locked_shares: u128,
}

/// `floor(amount * total_share / reserve)`: the shares that `amount` of an asset is worth.
pub open spec fn implied_shares(amount: nat, total_share: nat, reserve: nat) -> nat {
    amount * total_share / reserve
}

/// The part of a deposit that `minted` shares pay for, for an asset whose implied shares
/// are `implied`: all of it when it is the scarce side, else `floor(minted * reserve / total)`.
pub open spec fn accepted_part(amount: nat, implied: nat, minted: nat, total_share: nat, reserve: nat) -> nat {
    if implied == minted {
        amount
    } else {
        minted * reserve / total_share
    }
}

/// The outcome of depositing `d0, d1` into reserves `p0, p1` with `total_share` shares out.
pub open spec fn deposit_outcome(total_share: nat, p0: nat, p1: nat, d0: nat, d1: nat) -> Result<
    LiquidityComputation,
    ContractError,
> {
    if d0 == 0 || d1 == 0 {
        Err(ContractError::InvalidZeroAmount)
    } else if total_share == 0 {
        let initial = if d0 <= d1 { d0 } else { d1 };
        if initial <= MINIMUM_LIQUIDITY_AMOUNT {
            Err(ContractError::InvalidInitialLiquidityAmount(MINIMUM_LIQUIDITY_AMOUNT))
        } else {
            Ok(
                LiquidityComputation {
                    accepted_amounts: (d0 as u128, d1 as u128),
                    minted_shares: (initial - MINIMUM_LIQUIDITY_AMOUNT) as u128,
                    locked_shares: MINIMUM_LIQUIDITY_AMOUNT,
                },
            )
        }
    } else if p0 == 0 || p1 == 0 {
        Err(ContractError::DivideByZero)
    } else {
        let s0 = implied_shares(d0, total_share, p0);
        let s1 = implied_shares(d1, total_share, p1);
        if s0 > u128::MAX || s1 > u128::MAX {
            Err(ContractError::Overflow)
        } else {
            let minted = if s0 <= s1 { s0 } else { s1 };
            Ok(
                LiquidityComputation {
                    accepted_amounts: (
                        accepted_part(d0, s0, minted, total_share, p0) as u128,
                        accepted_part(d1, s1, minted, total_share, p1) as u128,
                    ),
                    minted_shares: minted as u128,
                    locked_shares: 0,
                },
            )
        }
    }
}

/// `floor(a * b / c)` for 128-bit operands, when it fits in 128 bits.
fn mul_div(a: u128, b: u128, c: u128) -> (r: Option<u128>)
    requires
        c > 0,
    ensures
        r is Some <==> (a as nat) * (b as nat) / (c as nat) <= u128::MAX,
        r matches Some(q) ==> q == (a as nat) * (b as nat) / (c as nat),
{
    proof {
        lemma_mul_lt(a as nat, b as nat, half_base(), half_base());
        crate::arith::lemma_div_le(a as nat * b as nat, c as nat);
    }
    let q = checked_multiply_ratio(U256::from_u128(a), U256::from_u128(b), U256::from_u128(c));
    q.unwrap().to_u128()
}

/// The part of `amount` that `minted` shares pay for (see `accepted_part`).
fn accepted(amount: u128, implied: u128, minted: u128, total_share: u128, reserve: u128) -> (r: u128)
    requires
        total_share > 0,
        reserve > 0,
        minted <= implied,
        implied == implied_shares(amount as nat, total_share as nat, reserve as nat),
    ensures
        r == accepted_part(amount as nat, implied as nat, minted as nat, total_share as nat, reserve as nat),
        r <= amount,
{
    if implied == minted {
        amount
    } else {
        proof {
            let (am, t, m, p) = (amount as nat, total_share as nat, minted as nat, reserve as nat);
            lemma_div_mul_le(am * t, p);
            lemma_mul_inequality(m as int, implied as int, p as int);
            lemma_div_mono(m * p, am * t, t);
            vstd::arithmetic::div_mod::lemma_div_by_multiple(am as int, t as int);
        }
        mul_div(minted, reserve, total_share).unwrap()
    }
}

/// Computes the shares a deposit of `deposits` mints against reserves `pools` with
/// `total_share` shares outstanding. The first deposit mints the smaller amount, less a
/// locked minimum; later ones mint the smaller of the two implied share counts, and only
/// the matching part of the other asset counts as accepted.
pub fn compute_liquidity(total_share: u128, pools: (u128, u128), deposits: (u128, u128)) -> (r: Result<
    LiquidityComputation,
    ContractError,
>)
    ensures
        r == deposit_outcome(total_share as nat, pools.0 as nat, pools.1 as nat, deposits.0 as nat, deposits.1 as nat),
        r matches Ok(c) ==> c.accepted_amounts.0 <= deposits.0 && c.accepted_amounts.1 <= deposits.1,
{
    let (d0, d1) = deposits;
    let (p0, p1) = pools;
    if d0 == 0 || d1 == 0 {
        return Err(ContractError::InvalidZeroAmount);
    }
    if total_share == 0 {
        let initial = if d0 <= d1 { d0 } else { d1 };
        if initial <= MINIMUM_LIQUIDITY_AMOUNT {
            return Err(ContractError::InvalidInitialLiquidityAmount(MINIMUM_LIQUIDITY_AMOUNT));
        }
        return Ok(
            LiquidityComputation {
                accepted_amounts: (d0, d1),
                minted_shares: initial - MINIMUM_LIQUIDITY_AMOUNT,
                locked_shares: MINIMUM_LIQUIDITY_AMOUNT,
            },
        );
    }
    if p0 == 0 || p1 == 0 {
        return Err(ContractError::DivideByZero);
    }
    let s0 = match mul_div(d0, total_share, p0) {
        Some(s) => s,
        None => return Err(ContractError::Overflow),
    };
    let s1 = match mul_div(d1, total_share, p1) {
        Some(s) => s,
        None => return Err(ContractError::Overflow),
    };
    let minted = if s0 <= s1 { s0 } else { s1 };
    Ok(
        LiquidityComputation {
            accepted_amounts: (accepted(d0, s0, minted, total_share, p0), accepted(d1, s1, minted, total_share, p1)),
            minted_shares: minted,
            locked_shares: 0,
        },
    )
}

/// The assets returned for burning `shares` of `total_share`: `floor(shares * p_i / total)`.
pub open spec fn withdraw_outcome(total_share: nat, p0: nat, p1: nat, shares: nat) -> Result<(u128, u128), ContractError> {
    if shares == 0 {
        Err(ContractError::InvalidZeroAmount)
    } else if shares > total_share {
        Err(ContractError::InsufficientShares)
    } else {
        Ok(((shares * p0 / total_share) as u128, (shares * p1 / total_share) as u128))
    }
}

/// Computes what burning `shares` out of `total_share` returns from reserves `pools`.
pub fn compute_withdrawal(total_share: u128, pools: (u128, u128), shares: u128) -> (r: Result<(u128, u128), ContractError>)
    ensures
        r == withdraw_outcome(total_share as nat, pools.0 as nat, pools.1 as nat, shares as nat),
        r matches Ok((a, b)) ==> a <= pools.0 && b <= pools.1,
{
    if shares == 0 {
        return Err(ContractError::InvalidZeroAmount);
    }
    if shares > total_share {
        return Err(ContractError::InsufficientShares);
    }
    proof {
        lemma_mul_is_commutative(shares as int, pools.0 as int);
        lemma_mul_is_commutative(shares as int, pools.1 as int);
        lemma_mul_div_le_left(pools.0 as nat, shares as nat, total_share as nat);
        lemma_mul_div_le_left(pools.1 as nat, shares as nat, total_share as nat);
    }
    let a = mul_div(shares, pools.0, total_share).unwrap();
    let b = mul_div(shares, pools.1, total_share).unwrap();
    Ok((a, b))
}

} // verus!
