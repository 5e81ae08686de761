use liquidity_hub::asset::{Asset, AssetInfo, Coin};
use liquidity_hub::error::ContractError;
use liquidity_hub::fees::{accumulate_fees, get_protocol_fee_for_asset};
use liquidity_hub::vault::{
    after_trade, assert_self_call, close_loan, complete_loan, deposit, flash_loan, native_funds_sent, open_loan,
    update_config, Config, DepositPlan, FactoryConfig, LoanBalance, LoanState, LoanStep,
};

fn config(asset_info: AssetInfo, deposit_enabled: bool, flash_loan_enabled: bool) -> Config {
    Config {
        owner: "creator".to_string(),
        asset_info,
        flash_loan_enabled,
        deposit_enabled,
        withdraw_enabled: true,
        liquidity_token: "lp_token".to_string(),
    }
}

fn uluna() -> AssetInfo {
    AssetInfo::NativeToken { denom: "uluna".to_string() }
}

fn vault_token() -> AssetInfo {
    AssetInfo::Token { contract_addr: "vault_token".to_string() }
}

fn coin(denom: &str, amount: u128) -> Coin {
    Coin { denom: denom.to_string(), amount }
}

#[test]
fn can_deposit_native() {
    let sent = native_funds_sent(&vec![coin("uluna", 5_000)], &"uluna".to_string()).unwrap();
    let plan = deposit(&config(uluna(), true, true), 0, sent, 5_000, 0, 5_000, 0).unwrap();
    assert_eq!(plan, DepositPlan { lp_amount: 5_000, transfer_from: false });
}

#[test]
fn can_deposit_token() {
    // the allowance granted to the vault stands for the funds sent
    let plan = deposit(&config(vault_token(), true, true), 0, 5_000, 5_000, 0, 0, 0).unwrap();
    assert_eq!(plan, DepositPlan { lp_amount: 5_000, transfer_from: true });
}

#[test]
fn does_verify_funds_deposited_native() {
    let sent = native_funds_sent(&vec![], &"uluna".to_string()).unwrap();
    assert_eq!(
        deposit(&config(uluna(), true, true), 0, sent, 5_000, 0, 0, 0).unwrap_err(),
        ContractError::FundsMismatch { sent: 0, wanted: 5_000 }
    );
}

#[test]
fn does_verify_funds_deposited_token() {
    assert_eq!(
        deposit(&config(vault_token(), true, true), 0, 0, 5_000, 0, 0, 0).unwrap_err(),
        ContractError::FundsMismatch { sent: 0, wanted: 5_000 }
    );
}

#[test]
fn cannot_deposit_when_disabled() {
    assert_eq!(
        deposit(&config(uluna(), false, true), 0, 5_000, 5_000, 0, 0, 0).unwrap_err(),
        ContractError::DepositsDisabled
    );
}

#[test]
fn cannot_deposit_when_loan() {
    assert_eq!(
        deposit(&config(uluna(), true, true), 2, 5_000, 5_000, 0, 0, 0).unwrap_err(),
        ContractError::DepositDuringLoan
    );
}

#[test]
fn does_not_dilute_early_holders() {
    // 10,000 shares out, 15,000 held of which 500 are protocol fees
    let plan = deposit(&config(uluna(), true, true), 0, 5_000, 5_000, 10_000, 15_000, 500).unwrap();
    assert_eq!(plan.lp_amount, 3_448);
}

#[test]
fn deposit_share_price_edge_cases() {
    let c = config(uluna(), true, true);
    assert_eq!(deposit(&c, 0, 10, 10, 10, 5, 6).unwrap_err(), ContractError::Overflow);
    assert_eq!(deposit(&c, 0, 10, 10, 10, 6, 6).unwrap_err(), ContractError::DivideByZero);
    assert_eq!(deposit(&c, 0, u128::MAX, u128::MAX, 2, 6, 1).unwrap_err(), ContractError::Overflow);
}

#[test]
fn native_funds_add_up_by_denomination() {
    let funds = vec![coin("uluna", 3), coin("uwhale", 7), coin("uluna", 4)];
    assert_eq!(native_funds_sent(&funds, &"uluna".to_string()), Ok(7));
    let too_much = vec![coin("uluna", u128::MAX), coin("uluna", 1)];
    assert_eq!(native_funds_sent(&too_much, &"uluna".to_string()), Err(ContractError::Overflow));
}

#[test]
fn cannot_loan_when_disabled() {
    assert_eq!(
        flash_loan(&config(uluna(), true, false), 5_000, 10_000).unwrap_err(),
        ContractError::FlashLoansDisabled
    );
}

#[test]
fn can_loan_native() {
    let plan = flash_loan(&config(uluna(), true, true), 5_000, 10_000).unwrap();
    assert_eq!(plan.old_balance, 10_000);
    assert_eq!(
        plan.steps,
        vec![
            LoanStep::Callback { funds: Some(coin("uluna", 5_000)) },
            LoanStep::AfterTrade { old_balance: 10_000 },
        ]
    );
}

#[test]
fn can_loan_token() {
    let plan = flash_loan(&config(vault_token(), true, true), 5_000, 10_000).unwrap();
    assert_eq!(plan.old_balance, 10_000);
    assert_eq!(
        plan.steps,
        vec![
            LoanStep::TransferToken { asset: Asset { info: vault_token(), amount: 5_000 } },
            LoanStep::Callback { funds: None },
            LoanStep::AfterTrade { old_balance: 10_000 },
        ]
    );
}

#[test]
fn loan_must_come_back_with_its_fee() {
    assert_eq!(after_trade(10_000, 10_050, 50), Ok(0));
    assert_eq!(after_trade(10_000, 10_070, 50), Ok(20));
    assert_eq!(
        after_trade(10_000, 10_049, 50),
        Err(ContractError::NegativeProfit { old_balance: 10_000, current_balance: 10_049, required_amount: 10_050 })
    );
    assert_eq!(after_trade(u128::MAX, u128::MAX, 1), Err(ContractError::Overflow));
}

#[test]
fn settling_loans_pays_vaults_and_initiator() {
    let loans = vec![
        LoanBalance { vault: "v1".to_string(), loaned_asset: Asset { info: uluna(), amount: 100 }, payback_amount: 101, final_amount: 110 },
        LoanBalance { vault: "v2".to_string(), loaned_asset: Asset { info: vault_token(), amount: 50 }, payback_amount: 51, final_amount: 51 },
    ];
    let me = "router".to_string();
    let s = complete_loan(&me, &me, &loans).unwrap();
    assert_eq!(s.len(), 2);
    assert_eq!(s[0].payback, Asset { info: uluna(), amount: 101 });
    assert_eq!(s[0].profit, Some(Asset { info: uluna(), amount: 9 }));
    assert_eq!(s[1].vault, "v2");
    assert_eq!(s[1].profit, None);
    assert_eq!(complete_loan(&"other".to_string(), &me, &loans).unwrap_err(), ContractError::Unauthorized);
    let short = vec![LoanBalance { vault: "v1".to_string(), loaned_asset: Asset { info: uluna(), amount: 100 }, payback_amount: 101, final_amount: 99 }];
    assert_eq!(
        complete_loan(&me, &me, &short).unwrap_err(),
        ContractError::LoanShortfall {
            input: Asset { info: uluna(), amount: 100 },
            output_amount: 99,
            required_amount: 101
        }
    );
    assert_eq!(assert_self_call(&"other".to_string(), &me), Err(ContractError::Unauthorized));
    assert_eq!(assert_self_call(&me, &me), Ok(()));
}

#[test]
fn does_update_owner() {
    let c = FactoryConfig { owner: "creator".to_string() };
    let updated = update_config(&c, &"creator".to_string(), Some("other_acc".to_string())).unwrap();
    assert_eq!(updated.owner, "other_acc");
}

#[test]
fn does_allow_empty_owner_update() {
    let c = FactoryConfig { owner: "creator".to_string() };
    let updated = update_config(&c, &"creator".to_string(), None).unwrap();
    assert_eq!(updated.owner, "creator");
}

#[test]
fn unauthorized_update_errors() {
    let c = FactoryConfig { owner: "creator".to_string() };
    let r = update_config(&c, &"bad_actor".to_string(), Some("bad_actor".to_string()));
    assert_eq!(r.unwrap_err(), ContractError::Unauthorized);
}

#[test]
fn protocol_fee_for_an_asset() {
    let fees = vec![
        Asset { info: uluna(), amount: 10 },
        Asset { info: vault_token(), amount: 20 },
        Asset { info: uluna(), amount: 30 },
    ];
    assert_eq!(get_protocol_fee_for_asset(fees.clone(), "uluna".to_string()), 10);
    assert_eq!(get_protocol_fee_for_asset(fees.clone(), "vault_token".to_string()), 20);
    assert_eq!(get_protocol_fee_for_asset(fees, "uwhale".to_string()), 0);
}

#[test]
fn fees_add_up_by_asset_kind() {
    let fees = vec![
        Asset { info: uluna(), amount: 10 },
        Asset { info: vault_token(), amount: 20 },
        Asset { info: uluna(), amount: 30 },
        Asset { info: AssetInfo::Token { contract_addr: "uluna".to_string() }, amount: 1 },
    ];
    let acc = accumulate_fees(fees).unwrap();
    assert_eq!(
        acc,
        vec![
            Asset { info: uluna(), amount: 40 },
            Asset { info: vault_token(), amount: 20 },
            Asset { info: AssetInfo::Token { contract_addr: "uluna".to_string() }, amount: 1 },
        ]
    );
    let over = vec![Asset { info: uluna(), amount: u128::MAX }, Asset { info: uluna(), amount: 1 }];
    assert_eq!(accumulate_fees(over), Err(ContractError::Overflow));
}

#[test]
fn loans_are_pending_until_the_after_trade_check_passes() {
    let mut state = LoanState { loan_counter: 0 };
    assert_eq!(close_loan(&mut state, 100, 100, 0), Err(ContractError::NoLoanPending));
    open_loan(&mut state).unwrap();
    assert_eq!(state.loan_counter, 1);
    // a deposit now sees the loan
    assert_eq!(
        deposit(&config(uluna(), true, true), state.loan_counter, 5, 5, 0, 0, 0).unwrap_err(),
        ContractError::DepositDuringLoan
    );
    assert_eq!(
        close_loan(&mut state, 100, 104, 5),
        Err(ContractError::NegativeProfit { old_balance: 100, current_balance: 104, required_amount: 105 })
    );
    assert_eq!(state.loan_counter, 1);
    assert_eq!(close_loan(&mut state, 100, 110, 5), Ok(5));
    assert_eq!(state.loan_counter, 0);
    let mut full = LoanState { loan_counter: u64::MAX };
    assert_eq!(open_loan(&mut full), Err(ContractError::Overflow));
}
