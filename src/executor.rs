//! Atomic operations on the ledger: each validates, computes and guards before it writes,
//! and a rejected operation leaves every pool as it was.

use crate::asset::{Asset, AssetInfo, Coin};
use crate::decimal::Decimal;
use crate::error::ContractError;
use crate::laws::lemma_swap_keeps_product;
use crate::liquidity::{
    compute_liquidity, compute_withdrawal, deposit_outcome, withdraw_outcome, LiquidityComputation,
};
use crate::pool::{pool_index, Pool, PoolLedger};
use crate::spread::{assert_max_spread, check_slippage, max_spread_outcome, slippage_outcome};
use crate::swap_math::{compute_swap, swap_outcome, SwapComputation};
use vstd::prelude::*;

verus! {

/// What a swap hands back, each fee as an asset of its own for the caller to route.
#[derive(Clone, Debug, PartialEq, Eq)]
pub struct SwapResult {
    /// The asset that goes to the trader.
    pub return_asset: Coin,
    /// The burn fee, in the returned denomination.
    pub burn_fee_asset: Coin,
    /// The protocol fee, in the returned denomination.
    pub protocol_fee_asset: Coin,
    /// The swap fee, in the returned denomination; it stays in the pool.
    pub swap_fee_asset: Coin,
    /// The pool after the swap.
    pub pool_info: Pool,
    /// The shortfall against the pre-trade spot price.
    pub spread_amount: u128,
}

/// The outcome of a swap on `pool`: the computation and the pool after it.
pub open spec fn swap_on_pool(
    pool: Pool,
    offer_denom: Seq<char>,
    offer_amount: nat,
    belief_price: Option<Decimal>,
    max_spread: Option<Decimal>,
) -> Result<(SwapComputation, Pool), ContractError> {
    if offer_denom != pool.reserve0.denom@ && offer_denom != pool.reserve1.denom@ {
        Err(ContractError::AssetMismatch)
    } else if offer_amount == 0 {
        Err(ContractError::InvalidZeroAmount)
    } else {
        let first = offer_denom == pool.reserve0.denom@;
        let (offer_side, ask_side) = if first {
            (pool.reserve0, pool.reserve1)
        } else {
            (pool.reserve1, pool.reserve0)
        };
        match swap_outcome(offer_side.amount as nat, ask_side.amount as nat, offer_amount, pool.pool_fees) {
            Err(e) => Err(e),
            Ok(c) => match max_spread_outcome(
                belief_price,
                max_spread,
                offer_amount,
                c.return_amount as nat,
                c.spread_amount as nat,
                offer_side.decimals as nat,
                ask_side.decimals as nat,
            ) {
                Err(e) => Err(e),
                Ok(_) => {
                    if offer_side.amount + offer_amount > u128::MAX {
                        Err(ContractError::Overflow)
                    } else {
                        let new_offer = (offer_side.amount + offer_amount) as nat;
                        let new_ask = (ask_side.amount - c.return_amount - c.protocol_fee_amount
                            - c.burn_fee_amount) as nat;
                        Ok(
                            (
                                c,
                                if first {
                                    pool.with_amounts(new_offer, new_ask)
                                } else {
                                    pool.with_amounts(new_ask, new_offer)
                                },
                            ),
                        )
                    }
                },
            },
        }
    }
}

/// The denomination a swap of `offer_denom` on `pool` pays out in.
pub open spec fn ask_denom(pool: Pool, offer_denom: Seq<char>) -> Seq<char> {
    if offer_denom == pool.reserve0.denom@ {
        pool.reserve1.denom@
    } else {
        pool.reserve0.denom@
    }
}

/// Swaps `offer_asset` against the pool `pool_identifier`: finds the side it is offered
/// on, computes the return, checks it against the caller's spread bounds, and only then
/// credits the offer to the pool and debits the return and the protocol and burn fees.
/// A rejected swap leaves every pool of the ledger exactly as it was.
pub fn perform_swap(
    ledger: &mut PoolLedger,
    offer_asset: Coin,
    pool_identifier: String,
    belief_price: Option<Decimal>,
    max_spread: Option<Decimal>,
) -> (r: Result<SwapResult, ContractError>)
    requires
        old(ledger).wf(),
    ensures
        final(ledger).wf(),
        r is Err ==> final(ledger)@ == old(ledger)@,
        match pool_index(old(ledger)@, pool_identifier@) {
            None => r == Err::<SwapResult, ContractError>(ContractError::PoolNotFound),
            Some(i) => match swap_on_pool(
                old(ledger)@[i],
                offer_asset.denom@,
                offer_asset.amount as nat,
                belief_price,
                max_spread,
            ) {
                Err(e) => r == Err::<SwapResult, ContractError>(e),
                Ok((c, p)) => r matches Ok(res) && {
                    &&& final(ledger)@ == old(ledger)@.update(i, p)
                    &&& res.pool_info == p
                    &&& res.return_asset.amount == c.return_amount
                    &&& res.swap_fee_asset.amount == c.swap_fee_amount
                    &&& res.protocol_fee_asset.amount == c.protocol_fee_amount
                    &&& res.burn_fee_asset.amount == c.burn_fee_amount
                    &&& res.spread_amount == c.spread_amount
                    &&& res.return_asset.denom@ == ask_denom(old(ledger)@[i], offer_asset.denom@)
                    &&& res.swap_fee_asset.denom@ == ask_denom(old(ledger)@[i], offer_asset.denom@)
                    &&& res.protocol_fee_asset.denom@ == ask_denom(old(ledger)@[i], offer_asset.denom@)
                    &&& res.burn_fee_asset.denom@ == ask_denom(old(ledger)@[i], offer_asset.denom@)
                    &&& p.reserve0.amount * p.reserve1.amount >= old(ledger)@[i].reserve0.amount
                        * old(ledger)@[i].reserve1.amount
                },
            },
        },
{
    let i = match ledger.position(&pool_identifier) {
        Some(i) => i,
        None => return Err(ContractError::PoolNotFound),
    };
    let pool = ledger.pool_at(i);
    let first = offer_asset.denom == pool.reserve0.denom;
    if !first && offer_asset.denom != pool.reserve1.denom {
        return Err(ContractError::AssetMismatch);
    }
    if offer_asset.amount == 0 {
        return Err(ContractError::InvalidZeroAmount);
    }
    let (offer_side, ask_side) = if first {
        (&pool.reserve0, &pool.reserve1)
    } else {
        (&pool.reserve1, &pool.reserve0)
    };
    let c = match compute_swap(offer_side.amount, ask_side.amount, offer_asset.amount, pool.pool_fees) {
        Ok(c) => c,
        Err(e) => return Err(e),
    };
    let offer_info = Asset {
        info: AssetInfo::NativeToken { denom: offer_asset.denom.clone() },
        amount: offer_asset.amount,
    };
    let return_info = Asset {
        info: AssetInfo::NativeToken { denom: ask_side.denom.clone() },
        amount: c.return_amount,
    };
    match assert_max_spread(
        belief_price,
        max_spread,
        offer_info,
        return_info,
        c.spread_amount,
        offer_side.decimals,
        ask_side.decimals,
    ) {
        Ok(()) => {},
        Err(e) => return Err(e),
    }
    if offer_side.amount > u128::MAX - offer_asset.amount {
        return Err(ContractError::Overflow);
    }
    proof {
        lemma_swap_keeps_product(
            offer_side.amount as nat,
            ask_side.amount as nat,
            offer_asset.amount as nat,
            pool.pool_fees,
        );
    }
    let new_offer = offer_side.amount + offer_asset.amount;
    let new_ask = ask_side.amount - c.return_amount - c.protocol_fee_amount - c.burn_fee_amount;
    let updated = if first {
        pool.set_amounts(new_offer, new_ask)
    } else {
        pool.set_amounts(new_ask, new_offer)
    };
    let ask_denom = ask_side.denom.clone();
    let result = SwapResult {
        return_asset: Coin { denom: ask_denom.clone(), amount: c.return_amount },
        burn_fee_asset: Coin { denom: ask_denom.clone(), amount: c.burn_fee_amount },
        protocol_fee_asset: Coin { denom: ask_denom.clone(), amount: c.protocol_fee_amount },
        swap_fee_asset: Coin { denom: ask_denom, amount: c.swap_fee_amount },
        pool_info: updated.duplicate(),
        spread_amount: c.spread_amount,
    };
    proof {
        assert(updated.reserve0.amount * updated.reserve1.amount >= pool.reserve0.amount
            * pool.reserve1.amount) by (nonlinear_arith)
            requires
                first ==> (updated.reserve0.amount + 0 == new_offer && updated.reserve1.amount + 0
                    == new_ask && pool.reserve0.amount + 0 == offer_side.amount
                    && pool.reserve1.amount + 0 == ask_side.amount),
                !first ==> (updated.reserve1.amount + 0 == new_offer && updated.reserve0.amount + 0
                    == new_ask && pool.reserve1.amount + 0 == offer_side.amount
                    && pool.reserve0.amount + 0 == ask_side.amount),
                new_offer * new_ask >= offer_side.amount * ask_side.amount,
        ;
    }
    ledger.replace(i, updated);
    Ok(result)
}

/// What a deposit yields.
#[derive(Debug, PartialEq, Eq)]
pub struct LiquidityResult {
    /// Shares credited to `receiver`.
    pub minted_shares: u128,
    /// Shares locked for good (only on a pool's first deposit).
    pub locked_shares: u128,
    /// The parts of the two deposits, in the pool's order, that the shares pay for.
    pub accepted_amounts: (u128, u128),
    /// Who the shares are credited to.
    pub receiver: String,
    /// The pool after the deposit.
    pub pool_info: Pool,
}

/// The deposits of a provision in the pool's order, or `None` when the denominations are
/// not the pool's two.
pub open spec fn aligned(pool: Pool, assets: [Coin; 2]) -> Option<(nat, nat)> {
    if assets[0].denom@ == pool.reserve0.denom@ && assets[1].denom@ == pool.reserve1.denom@ {
        Some((assets[0].amount as nat, assets[1].amount as nat))
    } else if assets[0].denom@ == pool.reserve1.denom@ && assets[1].denom@ == pool.reserve0.denom@ {
        Some((assets[1].amount as nat, assets[0].amount as nat))
    } else {
        None
    }
}

/// The outcome of a deposit into `pool`. Every offered unit goes into the reserves, the
/// part that earns no shares included.
pub open spec fn provide_on_pool(
    pool: Pool,
    assets: [Coin; 2],
    slippage_tolerance: Option<Decimal>,
    total_share: nat,
) -> Result<(LiquidityComputation, Pool), ContractError> {
    match aligned(pool, assets) {
        None => Err(ContractError::AssetMismatch),
        Some((d0, d1)) => {
            let (p0, p1) = (pool.reserve0.amount as nat, pool.reserve1.amount as nat);
            if d0 == 0 || d1 == 0 {
                Err(ContractError::InvalidZeroAmount)
            } else if total_share > 0 && slippage_outcome(slippage_tolerance, d0, d1, p0, p1) is Err {
                Err(slippage_outcome(slippage_tolerance, d0, d1, p0, p1)->Err_0)
            } else {
                match deposit_outcome(total_share, p0, p1, d0, d1) {
                    Err(e) => Err(e),
                    Ok(c) => {
                        if p0 + d0 > u128::MAX || p1 + d1 > u128::MAX {
                            Err(ContractError::Overflow)
                        } else {
                            Ok((c, pool.with_amounts(p0 + d0, p1 + d1)))
                        }
                    },
                }
            }
        },
    }
}

/// Deposits two assets into the pool `pool_identifier`, whose shares, `total_share` of
/// them, are counted elsewhere. Checks the amounts and, on a pool that has shares out,
/// the slippage tolerance; then mints shares to `receiver`, or to `sender` when none is
/// given. A rejected deposit leaves every pool of the ledger exactly as it was and mints
/// nothing: shares exist only in a successful result.
pub fn provide_liquidity(
    ledger: &mut PoolLedger,
    pool_identifier: String,
    assets: [Coin; 2],
    slippage_tolerance: Option<Decimal>,
    total_share: u128,
    sender: String,
    receiver: Option<String>,
) -> (r: Result<LiquidityResult, ContractError>)
    requires
        old(ledger).wf(),
    ensures
        final(ledger).wf(),
        r is Err ==> final(ledger)@ == old(ledger)@,
        match pool_index(old(ledger)@, pool_identifier@) {
            None => r == Err::<LiquidityResult, ContractError>(ContractError::PoolNotFound),
            Some(i) => match provide_on_pool(old(ledger)@[i], assets, slippage_tolerance, total_share as nat) {
                Err(e) => r == Err::<LiquidityResult, ContractError>(e),
                Ok((c, p)) => r matches Ok(res) && {
                    &&& final(ledger)@ == old(ledger)@.update(i, p)
                    &&& res.pool_info == p
                    &&& res.minted_shares == c.minted_shares
                    &&& res.locked_shares == c.locked_shares
                    &&& res.accepted_amounts == c.accepted_amounts
                    &&& res.receiver@ == match receiver {
                        Some(x) => x@,
                        None => sender@,
                    }
                },
            },
        },
{
    let i = match ledger.position(&pool_identifier) {
        Some(i) => i,
        None => return Err(ContractError::PoolNotFound),
    };
    let pool = ledger.pool_at(i);
    let (d0, d1) = if assets[0].denom == pool.reserve0.denom && assets[1].denom == pool.reserve1.denom {
        (assets[0].amount, assets[1].amount)
    } else if assets[0].denom == pool.reserve1.denom && assets[1].denom == pool.reserve0.denom {
        (assets[1].amount, assets[0].amount)
    } else {
        return Err(ContractError::AssetMismatch);
    };
    if d0 == 0 || d1 == 0 {
        return Err(ContractError::InvalidZeroAmount);
    }
    let (p0, p1) = (pool.reserve0.amount, pool.reserve1.amount);
    if total_share > 0 {
        match check_slippage(slippage_tolerance, d0, d1, p0, p1) {
            Ok(()) => {},
            Err(e) => return Err(e),
        }
    }
    let c = match compute_liquidity(total_share, (p0, p1), (d0, d1)) {
        Ok(c) => c,
        Err(e) => return Err(e),
    };
    if p0 > u128::MAX - d0 || p1 > u128::MAX - d1 {
        return Err(ContractError::Overflow);
    }
    let updated = pool.set_amounts(p0 + d0, p1 + d1);
    let result = LiquidityResult {
        minted_shares: c.minted_shares,
        locked_shares: c.locked_shares,
        accepted_amounts: c.accepted_amounts,
        receiver: match receiver {
            Some(x) => x,
            None => sender,
        },
        pool_info: updated.duplicate(),
    };
    ledger.replace(i, updated);
    Ok(result)
}

/// What a withdrawal returns.
#[derive(Debug, PartialEq, Eq)]
pub struct WithdrawResult {
    /// The amounts paid out, in the pool's order.
    pub returned_amounts: (u128, u128),
    /// The pool after the withdrawal.
    pub pool_info: Pool,
}

/// The outcome of burning `shares` of `total_share` against `pool`.
pub open spec fn withdraw_on_pool(pool: Pool, shares: nat, total_share: nat) -> Result<
    ((u128, u128), Pool),
    ContractError,
> {
    let (p0, p1) = (pool.reserve0.amount as nat, pool.reserve1.amount as nat);
    match withdraw_outcome(total_share, p0, p1, shares) {
        Err(e) => Err(e),
        Ok((a, b)) => Ok(((a, b), pool.with_amounts((p0 - a) as nat, (p1 - b) as nat))),
    }
}

/// Burns `shares` of the `total_share` shares of pool `pool_identifier` and pays out the
/// matching part of each reserve. A rejected withdrawal leaves the ledger as it was.
pub fn withdraw_liquidity(ledger: &mut PoolLedger, pool_identifier: String, shares: u128, total_share: u128) -> (r:
    Result<WithdrawResult, ContractError>)
    requires
        old(ledger).wf(),
    ensures
        final(ledger).wf(),
        r is Err ==> final(ledger)@ == old(ledger)@,
        match pool_index(old(ledger)@, pool_identifier@) {
            None => r == Err::<WithdrawResult, ContractError>(ContractError::PoolNotFound),
            Some(i) => match withdraw_on_pool(old(ledger)@[i], shares as nat, total_share as nat) {
                Err(e) => r == Err::<WithdrawResult, ContractError>(e),
                Ok((amounts, p)) => r matches Ok(res) && {
                    &&& final(ledger)@ == old(ledger)@.update(i, p)
                    &&& res.pool_info == p
                    &&& res.returned_amounts == amounts
                },
            },
        },
{
    let i = match ledger.position(&pool_identifier) {
        Some(i) => i,
        None => return Err(ContractError::PoolNotFound),
    };
    let pool = ledger.pool_at(i);
    let (a, b) = match compute_withdrawal(total_share, (pool.reserve0.amount, pool.reserve1.amount), shares) {
        Ok(v) => v,
        Err(e) => return Err(e),
    };
    let updated = pool.set_amounts(pool.reserve0.amount - a, pool.reserve1.amount - b);
    let result = WithdrawResult { returned_amounts: (a, b), pool_info: updated.duplicate() };
    ledger.replace(i, updated);
    Ok(result)
}

/// A copy of the pool `pool_identifier`.
pub fn get_pool(ledger: &PoolLedger, pool_identifier: &String) -> (r: Result<Pool, ContractError>)
    requires
        ledger.wf(),
    ensures
        match pool_index(ledger@, pool_identifier@) {
            None => r == Err::<Pool, ContractError>(ContractError::PoolNotFound),
            Some(i) => r == Ok::<Pool, ContractError>(ledger@[i]),
        },
{
    match ledger.get(pool_identifier) {
        Some(p) => Ok(p),
        None => Err(ContractError::PoolNotFound),
    }
}

} // verus!
