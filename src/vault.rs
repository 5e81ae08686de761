//! A single-asset vault: deposits priced in vault shares, flash loans, and loan settlement.

use crate::asset::{Asset, AssetInfo, Coin};
use crate::error::ContractError;
use vstd::prelude::*;

verus! {

/// The configuration of a vault.
#[derive(Clone, Debug, PartialEq, Eq)]
pub struct Config {
    /// The owner of the vault.
    pub owner: String,
    /// The asset the vault manages.
    pub asset_info: AssetInfo,
    /// Whether flash loans are enabled.
    pub flash_loan_enabled: bool,
    /// Whether deposits are enabled.
    pub deposit_enabled: bool,
    /// Whether withdrawals are enabled.
    pub withdraw_enabled: bool,
    /// The address of the vault's share token.
    pub liquidity_token: String,
}

/// The sum of the amounts in `funds` of denomination `denom`.
pub open spec fn denom_total(funds: Seq<Coin>, denom: Seq<char>) -> nat
    decreases funds.len(),
{
    if funds.len() == 0 {
        0
    } else {
        denom_total(funds.drop_last(), denom) + if funds.last().denom@ == denom {
            funds.last().amount as nat
        } else {
            0
        }
    }
}

/// The total of `denom` among the native funds sent with a message.
pub fn native_funds_sent(funds: &Vec<Coin>, denom: &String) -> (r: Result<u128, ContractError>)
    ensures
        denom_total(funds@, denom@) <= u128::MAX ==> r == Ok::<u128, ContractError>(
            denom_total(funds@, denom@) as u128,
        ),
        denom_total(funds@, denom@) > u128::MAX ==> r == Err::<u128, ContractError>(ContractError::Overflow),
{
    let mut total: u128 = 0;
    let mut i: usize = 0;
    while i < funds.len()
        invariant
            i <= funds@.len(),
            total == denom_total(funds@.subrange(0, i as int), denom@),
        decreases funds@.len() - i,
    {
        assert(funds@.subrange(0, i as int + 1).drop_last() == funds@.subrange(0, i as int));
        if funds[i].denom == *denom {
            if total > u128::MAX - funds[i].amount {
                proof {
                    lemma_denom_total_prefix(funds@, denom@, i as int + 1);
                }
                return Err(ContractError::Overflow);
            }
            total = total + funds[i].amount;
        }
        i = i + 1;
    }
    assert(funds@.subrange(0, funds@.len() as int) == funds@);
    Ok(total)
}

/// A prefix never holds more of a denomination than the whole list.
proof fn lemma_denom_total_prefix(funds: Seq<Coin>, denom: Seq<char>, n: int)
    requires
        0 <= n <= funds.len(),
    ensures
        denom_total(funds.subrange(0, n), denom) <= denom_total(funds, denom),
    decreases funds.len() - n,
{
    if n < funds.len() {
        lemma_denom_total_prefix(funds, denom, n + 1);
        assert(funds.subrange(0, n + 1).drop_last() == funds.subrange(0, n));
    } else {
        assert(funds.subrange(0, n) == funds);
    }
}

/// Shares for depositing `amount` into a vault with `total_share` shares out, holding
/// `balance` of which `protocol_fees` are fees owed elsewhere: one for one into an empty
/// vault, else in proportion to the deposits the vault holds.
pub open spec fn vault_shares(amount: nat, total_share: nat, balance: nat, protocol_fees: nat) -> Result<
    u128,
    ContractError,
> {
    if total_share == 0 {
        Ok(amount as u128)
    } else if balance < protocol_fees || amount * total_share > u128::MAX {
        Err(ContractError::Overflow)
    } else if balance == protocol_fees {
        Err(ContractError::DivideByZero)
    } else {
        Ok((amount * total_share / ((balance - protocol_fees) as nat)) as u128)
    }
}

/// What the vault does on a deposit.
#[derive(Clone, Copy, Debug, PartialEq, Eq, Structural)]
pub struct DepositPlan {
    /// Shares to mint to the depositor.
    pub lp_amount: u128,
    /// Whether the asset is a token to pull from the depositor (native funds come attached).
    pub transfer_from: bool,
}

/// Decides a deposit of `amount`, given the funds the depositor provided (`sent_funds`:
/// native funds attached, or the token allowance), the loans in flight, the shares out,
/// the vault's balance and the protocol fees inside it.
pub fn deposit(
    config: &Config,
    loan_counter: u64,
    sent_funds: u128,
    amount: u128,
    total_lp_share: u128,
    vault_balance: u128,
    collected_protocol_fees: u128,
) -> (r: Result<DepositPlan, ContractError>)
    ensures
        !config.deposit_enabled ==> r == Err::<DepositPlan, ContractError>(ContractError::DepositsDisabled),
        config.deposit_enabled && loan_counter != 0 ==> r == Err::<DepositPlan, ContractError>(
            ContractError::DepositDuringLoan,
        ),
        config.deposit_enabled && loan_counter == 0 && sent_funds != amount ==> r == Err::<
            DepositPlan,
            ContractError,
        >(ContractError::FundsMismatch { sent: sent_funds, wanted: amount }),
        config.deposit_enabled && loan_counter == 0 && sent_funds == amount ==> match vault_shares(
            amount as nat,
            total_lp_share as nat,
            vault_balance as nat,
            collected_protocol_fees as nat,
        ) {
            Ok(lp) => r == Ok::<DepositPlan, ContractError>(
                DepositPlan { lp_amount: lp, transfer_from: config.asset_info is Token },
            ),
            Err(e) => r == Err::<DepositPlan, ContractError>(e),
        },
{
    if !config.deposit_enabled {
        return Err(ContractError::DepositsDisabled);
    }
    if loan_counter != 0 {
        return Err(ContractError::DepositDuringLoan);
    }
    if sent_funds != amount {
        return Err(ContractError::FundsMismatch { sent: sent_funds, wanted: amount });
    }
    let transfer_from = match &config.asset_info {
        AssetInfo::Token { .. } => true,
        AssetInfo::NativeToken { .. } => false,
    };
    if total_lp_share == 0 {
        return Ok(DepositPlan { lp_amount: amount, transfer_from });
    }
    if vault_balance < collected_protocol_fees {
        return Err(ContractError::Overflow);
    }
    let deposits = vault_balance - collected_protocol_fees;
    let product = match amount.checked_mul(total_lp_share) {
        Some(p) => p,
        None => return Err(ContractError::Overflow),
    };
    if deposits == 0 {
        return Err(ContractError::DivideByZero);
    }
    Ok(DepositPlan { lp_amount: product / deposits, transfer_from })
}

/// One step of a flash loan, in the order the vault carries them out.
#[derive(Clone, Debug, PartialEq, Eq)]
pub enum LoanStep {
    /// Send the loaned token to the borrower.
    TransferToken { asset: Asset },
    /// Call the borrower back, with the loan attached as native funds for a native vault.
    Callback { funds: Option<Coin> },
    /// Once the callback has returned, check the vault's balance against `old_balance`.
    AfterTrade { old_balance: u128 },
}

/// What the vault does to open a flash loan.
#[derive(Clone, Debug, PartialEq, Eq)]
pub struct FlashLoanPlan {
    /// The vault's balance before the loan, checked again once the borrower's callback returns.
    pub old_balance: u128,
    /// The steps, in order: the loan goes out, the borrower is called back, the balance is
    /// checked. The balance is recorded before any of them.
    pub steps: Vec<LoanStep>,
}

/// Decides a flash loan of `amount` from a vault whose balance is `old_balance`: the loan
/// goes out as a token transfer or as funds attached to the callback, and the balance is
/// recorded first so that the check after the callback compares against it.
pub fn flash_loan(config: &Config, amount: u128, old_balance: u128) -> (r: Result<FlashLoanPlan, ContractError>)
    ensures
        !config.flash_loan_enabled ==> r == Err::<FlashLoanPlan, ContractError>(
            ContractError::FlashLoansDisabled,
        ),
        config.flash_loan_enabled ==> (r matches Ok(plan) && plan.old_balance == old_balance && match config.asset_info {
            AssetInfo::Token { contract_addr } => {
                &&& plan.steps@.len() == 3
                &&& plan.steps@[0] matches LoanStep::TransferToken { asset } && asset.amount == amount
                    && asset.info is Token && asset.info.id() == contract_addr@
                &&& plan.steps@[1] == LoanStep::Callback { funds: None }
                &&& plan.steps@[2] == LoanStep::AfterTrade { old_balance }
            },
            AssetInfo::NativeToken { denom } => {
                &&& plan.steps@.len() == 2
                &&& plan.steps@[0] matches LoanStep::Callback { funds: Some(c) } && c.amount == amount
                    && c.denom@ == denom@
                &&& plan.steps@[1] == LoanStep::AfterTrade { old_balance }
            },
        }),
{
    if !config.flash_loan_enabled {
        return Err(ContractError::FlashLoansDisabled);
    }
    let mut steps: Vec<LoanStep> = Vec::new();
    match &config.asset_info {
        AssetInfo::Token { contract_addr } => {
            steps.push(
                LoanStep::TransferToken {
                    asset: Asset { info: AssetInfo::Token { contract_addr: contract_addr.clone() }, amount },
                },
            );
            steps.push(LoanStep::Callback { funds: None });
        },
        AssetInfo::NativeToken { denom } => {
            steps.push(LoanStep::Callback { funds: Some(Coin { denom: denom.clone(), amount }) });
        },
    }
    steps.push(LoanStep::AfterTrade { old_balance });
    Ok(FlashLoanPlan { old_balance, steps })
}

/// The outcome of the check after a flash loan's callback.
pub open spec fn after_trade_outcome(old_balance: nat, current_balance: nat, fee: nat) -> Result<u128, ContractError> {
    if old_balance + fee > u128::MAX {
        Err(ContractError::Overflow)
    } else if current_balance < old_balance + fee {
        Err(
            ContractError::NegativeProfit {
                old_balance: old_balance as u128,
                current_balance: current_balance as u128,
                required_amount: (old_balance + fee) as u128,
            },
        )
    } else {
        Ok((current_balance - old_balance - fee) as u128)
    }
}

/// The check after a flash loan's callback: the vault must hold at least `old_balance`
/// plus `fee`. Returns the profit above that.
pub fn after_trade(old_balance: u128, current_balance: u128, fee: u128) -> (r: Result<u128, ContractError>)
    ensures
        r == after_trade_outcome(old_balance as nat, current_balance as nat, fee as nat),
{
    if old_balance > u128::MAX - fee {
        return Err(ContractError::Overflow);
    }
    let required_amount = old_balance + fee;
    if current_balance < required_amount {
        return Err(ContractError::NegativeProfit { old_balance, current_balance, required_amount });
    }
    Ok(current_balance - required_amount)
}

/// The loans a vault has in flight. A loan is opened before the borrower's callback runs
/// and closed only by a passing after-trade check, so deposits see it as pending throughout.
#[derive(Clone, Copy, Debug, PartialEq, Eq, Structural)]
pub struct LoanState {
    pub loan_counter: u64,
}

/// Marks a loan as pending.
pub fn open_loan(state: &mut LoanState) -> (r: Result<(), ContractError>)
    ensures
        old(state).loan_counter == u64::MAX ==> r == Err::<(), ContractError>(ContractError::Overflow)
            && *final(state) == *old(state),
        old(state).loan_counter < u64::MAX ==> r is Ok && final(state).loan_counter == old(state).loan_counter + 1,
{
    if state.loan_counter == u64::MAX {
        return Err(ContractError::Overflow);
    }
    state.loan_counter = state.loan_counter + 1;
    Ok(())
}

/// Closes a pending loan once the vault holds `old_balance` plus `fee` again; a failed check
/// or no pending loan leaves the state as it was.
pub fn close_loan(state: &mut LoanState, old_balance: u128, current_balance: u128, fee: u128) -> (r: Result<
    u128,
    ContractError,
>)
    ensures
        old(state).loan_counter == 0 ==> r == Err::<u128, ContractError>(ContractError::NoLoanPending),
        old(state).loan_counter > 0 ==> r == after_trade_outcome(old_balance as nat, current_balance as nat, fee as nat),
        r is Ok ==> final(state).loan_counter == old(state).loan_counter - 1,
        r is Err ==> *final(state) == *old(state),
{
    if state.loan_counter == 0 {
        return Err(ContractError::NoLoanPending);
    }
    match after_trade(old_balance, current_balance, fee) {
        Ok(profit) => {
            state.loan_counter = state.loan_counter - 1;
            Ok(profit)
        },
        Err(e) => Err(e),
    }
}

/// One loan to settle: what was borrowed from `vault`, what it asks back, and what the
/// borrower holds after the trade.
#[derive(Clone, Debug, PartialEq, Eq)]
pub struct LoanBalance {
    pub vault: String,
    pub loaned_asset: Asset,
    pub payback_amount: u128,
    pub final_amount: u128,
}

/// How one loan is settled: the payback to the vault and the profit to the initiator.
#[derive(Clone, Debug, PartialEq, Eq)]
pub struct Settlement {
    pub vault: String,
    pub payback: Asset,
    /// The profit, when there is any.
    pub profit: Option<Asset>,
}

/// The settlement of one loan, or why it cannot be settled.
pub open spec fn settle_spec(loan: LoanBalance) -> Result<(nat, nat), ContractError> {
    if loan.final_amount < loan.payback_amount {
        Err(
            ContractError::LoanShortfall {
                input: loan.loaned_asset,
                output_amount: loan.final_amount,
                required_amount: loan.payback_amount,
            },
        )
    } else {
        Ok((loan.payback_amount as nat, (loan.final_amount - loan.payback_amount) as nat))
    }
}

/// Whether loan `i` cannot be paid back while every earlier one can.
pub open spec fn first_unpaid(loans: Seq<LoanBalance>, i: int) -> bool {
    &&& 0 <= i < loans.len()
    &&& loans[i].final_amount < loans[i].payback_amount
    &&& forall|j: int| 0 <= j < i ==> loans[j].final_amount >= loans[j].payback_amount
}

/// Only the router itself may settle its loans.
pub fn assert_self_call(sender: &String, contract: &String) -> (r: Result<(), ContractError>)
    ensures
        sender@ != contract@ ==> r == Err::<(), ContractError>(ContractError::Unauthorized),
        sender@ == contract@ ==> r == Ok::<(), ContractError>(()),
{
    if *sender != *contract {
        return Err(ContractError::Unauthorized);
    }
    Ok(())
}

/// Settles the flash loans of a trade: only the router itself (`sender == contract`) may
/// do it; each vault gets its payback, and what the borrower holds beyond it goes to the
/// initiator. Fails on the first loan that cannot be paid back.
pub fn complete_loan(sender: &String, contract: &String, loans: &Vec<LoanBalance>) -> (r: Result<
    Vec<Settlement>,
    ContractError,
>)
    ensures
        sender@ != contract@ ==> r == Err::<Vec<Settlement>, ContractError>(ContractError::Unauthorized),
        sender@ == contract@ ==> (r is Err <==> exists|i: int| first_unpaid(loans@, i)),
        sender@ == contract@ ==> (r matches Err(e) ==> exists|i: int|
            first_unpaid(loans@, i) && e == settle_spec(loans@[i])->Err_0),
        r matches Ok(s) ==> (s@.len() == loans@.len() && forall|k: int|
                0 <= k < loans@.len() ==> {
                    let (payback, profit) = settle_spec(#[trigger] loans@[k])->Ok_0;
                    &&& s@[k].vault@ == loans@[k].vault@
                    &&& s@[k].payback.amount == payback
                    &&& s@[k].payback.info == loans@[k].loaned_asset.info
                    &&& (profit == 0 <==> s@[k].profit is None)
                    &&& s@[k].profit matches Some(p) ==> p.amount == profit && p.info
                        == loans@[k].loaned_asset.info
                }),
{
    match assert_self_call(sender, contract) {
        Ok(()) => {},
        Err(e) => return Err(e),
    }
    let mut out: Vec<Settlement> = Vec::new();
    let mut i: usize = 0;
    while i < loans.len()
        invariant
            sender@ == contract@,
            i <= loans@.len(),
            out@.len() == i,
            forall|j: int| 0 <= j < i ==> loans@[j].final_amount >= loans@[j].payback_amount,
            forall|k: int|
                0 <= k < i ==> {
                    let (payback, profit) = settle_spec(#[trigger] loans@[k])->Ok_0;
                    &&& out@[k].vault@ == loans@[k].vault@
                    &&& out@[k].payback.amount == payback
                    &&& out@[k].payback.info == loans@[k].loaned_asset.info
                    &&& (profit == 0 <==> out@[k].profit is None)
                    &&& out@[k].profit matches Some(p) ==> p.amount == profit && p.info
                        == loans@[k].loaned_asset.info
                },
        decreases loans@.len() - i,
    {
        let loan = &loans[i];
        if loan.final_amount < loan.payback_amount {
            proof {
                assert(first_unpaid(loans@, i as int));
            }
            return Err(
                ContractError::LoanShortfall {
                    input: Asset { info: copy_info(&loan.loaned_asset.info), amount: loan.loaned_asset.amount },
                    output_amount: loan.final_amount,
                    required_amount: loan.payback_amount,
                },
            );
        }
        let profit_amount = loan.final_amount - loan.payback_amount;
        let info = copy_info(&loan.loaned_asset.info);
        let profit = if profit_amount == 0 {
            None
        } else {
            Some(Asset { info: copy_info(&loan.loaned_asset.info), amount: profit_amount })
        };
        out.push(
            Settlement {
                vault: loan.vault.clone(),
                payback: Asset { info, amount: loan.payback_amount },
                profit,
            },
        );
        i = i + 1;
    }
    Ok(out)
}

/// A copy of an asset's kind.
pub fn copy_info(info: &AssetInfo) -> (r: AssetInfo)
    ensures
        r == *info,
{
    match info {
        AssetInfo::Token { contract_addr } => AssetInfo::Token { contract_addr: contract_addr.clone() },
        AssetInfo::NativeToken { denom } => AssetInfo::NativeToken { denom: denom.clone() },
    }
}

/// The configuration of the vault factory.
#[derive(Clone, Debug, PartialEq, Eq)]
pub struct FactoryConfig {
    pub owner: String,
}

/// Hands the factory to `new_owner` (an address already validated), or keeps the owner when
/// none is given; only the current owner may do it.
pub fn update_config(config: &FactoryConfig, sender: &String, new_owner: Option<String>) -> (r: Result<
    FactoryConfig,
    ContractError,
>)
    ensures
        sender@ != config.owner@ ==> r == Err::<FactoryConfig, ContractError>(ContractError::Unauthorized),
        sender@ == config.owner@ ==> (r matches Ok(c) && c.owner@ == match new_owner {
            Some(o) => o@,
            None => config.owner@,
        }),
{
    if *sender != config.owner {
        return Err(ContractError::Unauthorized);
    }
    match new_owner {
        Some(o) => Ok(FactoryConfig { owner: o }),
        None => Ok(FactoryConfig { owner: config.owner.clone() }),
    }
}

} // verus!
