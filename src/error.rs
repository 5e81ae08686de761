//! The errors of the engine.

use crate::asset::Asset;
use vstd::prelude::*;

verus! {

/// Why an operation was rejected. Each rejection leaves all state untouched.
#[derive(Clone, Debug, PartialEq, Eq)]
pub enum ContractError {
    /// The caller is not allowed to perform the operation.
    Unauthorized,
    /// The offered asset is none of the pool's assets, or the funds sent do not match.
    AssetMismatch,
    /// An amount that must be positive is zero.
    InvalidZeroAmount,
    /// A first deposit would mint no more than the locked minimum; carries that minimum.
    InvalidInitialLiquidityAmount(u128),
    /// The realized spread is above the caller's bound.
    MaxSpreadAssertion,
    /// The deposit ratio moved past the caller's slippage tolerance.
    MaxSlippageAssertion,
    /// A slippage tolerance above one.
    InvalidSlippageTolerance,
    /// More shares burned than exist.
    InsufficientShares,
    /// A pool identifier with no pool behind it.
    PoolNotFound,
    /// An intermediate result left the 256-bit domain, or a subtraction went below zero.
    Overflow,
    /// A result does not fit back into 128 bits.
    ConversionOverflow,
    /// A division by zero, e.g. by an empty reserve.
    DivideByZero,
    /// The funds sent differ from the amount declared.
    FundsMismatch { sent: u128, wanted: u128 },
    /// Deposits are switched off.
    DepositsDisabled,
    /// A deposit arrived while a loan is outstanding.
    DepositDuringLoan,
    /// Flash loans are switched off.
    FlashLoansDisabled,
    /// The vault's balance after a loan is below what it lent out plus its fee.
    NegativeProfit { old_balance: u128, current_balance: u128, required_amount: u128 },
    /// A borrower holds less of the loaned asset than the vault asks back.
    LoanShortfall { input: Asset, output_amount: u128, required_amount: u128 },
    /// A growth rate above one.
    InvalidGrowthRate,
    /// The holder still has rewards to claim.
    UnclaimedRewards,
    /// The current epoch is over a day old and its successor does not exist yet.
    NewEpochNotCreatedYet,
    /// A share-token denomination without a pair identifier.
    InvalidLpTokenDenom,
    /// An after-trade check with no loan in flight.
    NoLoanPending,
}

} // verus!
