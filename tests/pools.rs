use liquidity_hub::asset::Coin;
use liquidity_hub::decimal::{Decimal, Fee, PoolFee};
use liquidity_hub::error::ContractError;
use liquidity_hub::executor::{get_pool, perform_swap, provide_liquidity, withdraw_liquidity};
use liquidity_hub::liquidity::{compute_liquidity, compute_withdrawal, MINIMUM_LIQUIDITY_AMOUNT};
use liquidity_hub::pool::{Pool, PoolLedger, PoolType, Reserve};

fn pool_fees(swap_percent: u64, protocol_percent: u64) -> PoolFee {
    PoolFee {
        protocol_fee: Fee { share: Decimal::percent(protocol_percent) },
        swap_fee: Fee { share: Decimal::percent(swap_percent) },
        burn_fee: Fee { share: Decimal::zero() },
    }
}

fn pool(id: &str, a: (&str, u128, u8), b: (&str, u128, u8), fees: PoolFee) -> Pool {
    Pool {
        identifier: id.to_string(),
        reserve0: Reserve { denom: a.0.to_string(), amount: a.1, decimals: a.2 },
        reserve1: Reserve { denom: b.0.to_string(), amount: b.1, decimals: b.2 },
        pool_fees: fees,
        pool_type: PoolType::ConstantProduct,
    }
}

fn coin(denom: &str, amount: u128) -> Coin {
    Coin { denom: denom.to_string(), amount }
}

fn ledger_with(p: Pool) -> PoolLedger {
    let mut ledger = PoolLedger::new();
    ledger.put(p);
    ledger
}

fn reserves(ledger: &PoolLedger, id: &str) -> (u128, u128) {
    let p = get_pool(ledger, &id.to_string()).unwrap();
    (p.reserve0.amount, p.reserve1.amount)
}

#[test]
fn swap_updates_reserves_and_routes_fees() {
    let mut ledger = ledger_with(pool("p", ("uwhale", 1_000_000, 6), ("uusd", 1_000_000, 6), pool_fees(1, 1)));
    let res = perform_swap(&mut ledger, coin("uwhale", 1_000), "p".to_string(), None, None).unwrap();
    assert_eq!(res.return_asset, coin("uusd", 981));
    assert_eq!(res.swap_fee_asset, coin("uusd", 9));
    assert_eq!(res.protocol_fee_asset, coin("uusd", 9));
    assert_eq!(res.burn_fee_asset, coin("uusd", 0));
    assert_eq!(res.spread_amount, 1);
    // the swap fee stays in the pool; return and protocol fee leave it
    assert_eq!(reserves(&ledger, "p"), (1_001_000, 1_000_000 - 981 - 9));
    assert_eq!(res.pool_info.reserve1.amount, 1_000_000 - 990);
}

#[test]
fn swap_from_the_second_side() {
    let mut ledger = ledger_with(pool("p", ("uwhale", 1_000_000, 6), ("uusd", 1_000_000, 6), pool_fees(1, 1)));
    let res = perform_swap(&mut ledger, coin("uusd", 1_000), "p".to_string(), None, None).unwrap();
    assert_eq!(res.return_asset, coin("uwhale", 981));
    assert_eq!(reserves(&ledger, "p"), (1_000_000 - 990, 1_001_000));
}

#[test]
fn swap_keeps_the_product_of_reserves_from_shrinking() {
    let mut ledger = ledger_with(pool("p", ("a", 3_000, 6), ("b", 11_000, 6), pool_fees(1, 2)));
    let before = 3_000u128 * 11_000;
    perform_swap(&mut ledger, coin("a", 777), "p".to_string(), None, None).unwrap();
    let (x, y) = reserves(&ledger, "p");
    assert!(x * y >= before);
}

#[test]
fn rejected_swaps_leave_the_pool_untouched() {
    let mut ledger = ledger_with(pool("p", ("uwhale", 1_000, 6), ("uusd", 1_000, 6), pool_fees(1, 1)));
    assert_eq!(
        perform_swap(&mut ledger, coin("uluna", 10), "p".to_string(), None, None).unwrap_err(),
        ContractError::AssetMismatch
    );
    assert_eq!(
        perform_swap(&mut ledger, coin("uwhale", 10), "q".to_string(), None, None).unwrap_err(),
        ContractError::PoolNotFound
    );
    assert_eq!(
        perform_swap(&mut ledger, coin("uwhale", 0), "p".to_string(), None, None).unwrap_err(),
        ContractError::InvalidZeroAmount
    );
    assert_eq!(
        perform_swap(&mut ledger, coin("uwhale", 500), "p".to_string(), None, Some(Decimal::percent(1)))
            .unwrap_err(),
        ContractError::MaxSpreadAssertion
    );
    assert_eq!(reserves(&ledger, "p"), (1_000, 1_000));
}

#[test]
fn swap_overflowing_the_offer_reserve_is_rejected() {
    let mut ledger = ledger_with(pool("p", ("a", u128::MAX - 5, 6), ("b", 1_000, 6), pool_fees(0, 0)));
    let r = perform_swap(&mut ledger, coin("a", 10), "p".to_string(), None, None);
    assert_eq!(r.unwrap_err(), ContractError::Overflow);
    assert_eq!(reserves(&ledger, "p"), (u128::MAX - 5, 1_000));
}

#[test]
fn first_deposit_locks_the_minimum() {
    assert_eq!(
        compute_liquidity(0, (0, 0), (MINIMUM_LIQUIDITY_AMOUNT, MINIMUM_LIQUIDITY_AMOUNT)),
        Err(ContractError::InvalidInitialLiquidityAmount(MINIMUM_LIQUIDITY_AMOUNT))
    );
    let c = compute_liquidity(0, (0, 0), (MINIMUM_LIQUIDITY_AMOUNT + 1, MINIMUM_LIQUIDITY_AMOUNT + 1)).unwrap();
    assert_eq!(c.locked_shares, MINIMUM_LIQUIDITY_AMOUNT);
    assert_eq!(c.minted_shares, 1);
}

#[test]
fn proportional_deposit_mints_in_proportion() {
    let c = compute_liquidity(100, (100, 200), (100, 200)).unwrap();
    assert_eq!(c.minted_shares, 100);
    assert_eq!(c.accepted_amounts, (100, 200));
}

#[test]
fn disproportionate_deposit_credits_only_the_matching_part() {
    let c = compute_liquidity(100, (200, 200), (100, 200)).unwrap();
    assert_eq!(c.minted_shares, 50);
    assert_eq!(c.accepted_amounts, (100, 100));
    assert_eq!(c.locked_shares, 0);
}

#[test]
fn deposit_into_drained_reserve_divides_by_zero() {
    assert_eq!(compute_liquidity(100, (0, 200), (100, 200)), Err(ContractError::DivideByZero));
}

#[test]
fn deposit_with_too_many_implied_shares_overflows() {
    assert_eq!(compute_liquidity(u128::MAX, (1, 1), (2, 2)), Err(ContractError::Overflow));
}

#[test]
fn withdrawal_returns_a_proportional_part() {
    assert_eq!(compute_withdrawal(100, (200, 300), 50), Ok((100, 150)));
    assert_eq!(compute_withdrawal(3, (10, 10), 1), Ok((3, 3)));
    assert_eq!(compute_withdrawal(100, (200, 300), 0), Err(ContractError::InvalidZeroAmount));
    assert_eq!(compute_withdrawal(100, (200, 300), 101), Err(ContractError::InsufficientShares));
}

#[test]
fn withdraw_liquidity_debits_the_pool() {
    let mut ledger = ledger_with(pool("p", ("a", 200, 6), ("b", 300, 6), pool_fees(0, 0)));
    let res = withdraw_liquidity(&mut ledger, "p".to_string(), 50, 100).unwrap();
    assert_eq!(res.returned_amounts, (100, 150));
    assert_eq!(reserves(&ledger, "p"), (100, 150));
    assert_eq!(
        withdraw_liquidity(&mut ledger, "p".to_string(), 500, 100).unwrap_err(),
        ContractError::InsufficientShares
    );
    assert_eq!(reserves(&ledger, "p"), (100, 150));
}

#[test]
fn provide_liquidity_cw20_lp() {
    let mut ledger = ledger_with(pool("pair", ("asset0000", 0, 8), ("uusd", 0, 6), pool_fees(1, 1)));
    let addr = "addr0000".to_string();
    // the minimum alone is rejected
    let r = provide_liquidity(
        &mut ledger,
        "pair".to_string(),
        [coin("asset0000", MINIMUM_LIQUIDITY_AMOUNT), coin("uusd", MINIMUM_LIQUIDITY_AMOUNT)],
        None,
        0,
        addr.clone(),
        None,
    );
    assert!(matches!(r, Err(ContractError::InvalidInitialLiquidityAmount(_))));
    assert_eq!(reserves(&ledger, "pair"), (0, 0));

    // 2000 of each: 1000 locked, 1000 to the depositor
    let res = provide_liquidity(
        &mut ledger,
        "pair".to_string(),
        [coin("asset0000", 2_000), coin("uusd", 2_000)],
        None,
        0,
        addr.clone(),
        None,
    )
    .unwrap();
    assert_eq!(res.locked_shares, MINIMUM_LIQUIDITY_AMOUNT);
    assert_eq!(res.minted_shares, 1_000);
    assert_eq!(res.receiver, "addr0000");

    // a 1:2 deposit into a 1:1 pool with 100 shares out: 50 shares, the rest donated
    let mut ledger = ledger_with(pool("pair", ("asset0000", 200, 8), ("uusd", 200, 6), pool_fees(1, 1)));
    let res = provide_liquidity(
        &mut ledger,
        "pair".to_string(),
        [coin("asset0000", 100), coin("uusd", 200)],
        None,
        100,
        addr.clone(),
        Some("staking0000".to_string()),
    )
    .unwrap();
    assert_eq!(res.minted_shares, 50);
    assert_eq!(res.receiver, "staking0000");
    assert_eq!(reserves(&ledger, "pair"), (300, 400));

    // slippage: 98:100 and 100:98 against 100:100 fail at 1%, 99:100 passes
    let mut ledger = ledger_with(pool("pair", ("asset0000", 100, 8), ("uusd", 100, 6), pool_fees(1, 1)));
    for (a, b) in [(98u128, 100u128), (100, 98)] {
        let r = provide_liquidity(
            &mut ledger,
            "pair".to_string(),
            [coin("asset0000", a), coin("uusd", b)],
            Some(Decimal::percent(1)),
            100,
            "addr0001".to_string(),
            None,
        );
        assert_eq!(r.unwrap_err(), ContractError::MaxSlippageAssertion);
    }
    assert_eq!(reserves(&ledger, "pair"), (100, 100));
    provide_liquidity(
        &mut ledger,
        "pair".to_string(),
        [coin("asset0000", 99), coin("uusd", 100)],
        Some(Decimal::percent(1)),
        100,
        "addr0001".to_string(),
        None,
    )
    .unwrap();
    // and 100:99 against a 1:1 pool passes as well
    let mut ledger = ledger_with(pool("pair", ("asset0000", 100, 8), ("uusd", 100, 6), pool_fees(1, 1)));
    provide_liquidity(
        &mut ledger,
        "pair".to_string(),
        [coin("asset0000", 100), coin("uusd", 99)],
        Some(Decimal::percent(1)),
        100,
        "addr0001".to_string(),
        None,
    )
    .unwrap();
}

#[test]
fn provide_liquidity_zero_amount() {
    let mut ledger = ledger_with(pool("pair", ("asset0000", 0, 8), ("uusd", 0, 6), pool_fees(1, 1)));
    let r = provide_liquidity(
        &mut ledger,
        "pair".to_string(),
        [coin("asset0000", 0), coin("uusd", 100)],
        None,
        0,
        "addr0000".to_string(),
        None,
    );
    assert_eq!(r.unwrap_err(), ContractError::InvalidZeroAmount);
}

#[test]
fn provide_liquidity_invalid_minimum_lp_amount() {
    let mut ledger = ledger_with(pool("pair", ("asset0000", 0, 8), ("uusd", 0, 6), pool_fees(1, 1)));
    let r = provide_liquidity(
        &mut ledger,
        "pair".to_string(),
        [coin("asset0000", MINIMUM_LIQUIDITY_AMOUNT - 1), coin("uusd", 100)],
        None,
        0,
        "addr0000".to_string(),
        None,
    );
    assert!(matches!(r, Err(ContractError::InvalidInitialLiquidityAmount(_))));
}

#[test]
fn provide_liquidity_18_decimals() {
    let amount = 1_000_000_000_000_000_000_000_000_000_000u128;
    let mut ledger = ledger_with(pool("pair", ("inj", 0, 18), ("jni", 0, 18), pool_fees(1, 1)));
    let first = provide_liquidity(
        &mut ledger,
        "pair".to_string(),
        [coin("inj", amount), coin("jni", amount)],
        None,
        0,
        "creator".to_string(),
        None,
    )
    .unwrap();
    let total = first.minted_shares + first.locked_shares;
    let second = provide_liquidity(
        &mut ledger,
        "pair".to_string(),
        [coin("inj", amount), coin("jni", amount)],
        None,
        total,
        "creator".to_string(),
        None,
    )
    .unwrap();
    assert_eq!(second.minted_shares, total);
}

#[test]
fn provide_liquidity_matches_assets_in_either_order() {
    let mut ledger = ledger_with(pool("pair", ("a", 200, 6), ("b", 400, 6), pool_fees(0, 0)));
    let res = provide_liquidity(
        &mut ledger,
        "pair".to_string(),
        [coin("b", 400), coin("a", 200)],
        None,
        100,
        "x".to_string(),
        None,
    )
    .unwrap();
    assert_eq!(res.minted_shares, 100);
    assert_eq!(
        provide_liquidity(&mut ledger, "pair".to_string(), [coin("a", 1), coin("c", 1)], None, 100, "x".to_string(), None)
            .unwrap_err(),
        ContractError::AssetMismatch
    );
}

#[test]
fn ledger_replaces_a_pool_under_the_same_identifier() {
    let mut ledger = PoolLedger::new();
    ledger.put(pool("p", ("a", 1, 6), ("b", 2, 6), pool_fees(0, 0)));
    ledger.put(pool("q", ("a", 5, 6), ("c", 6, 6), pool_fees(0, 0)));
    ledger.put(pool("p", ("a", 3, 6), ("b", 4, 6), pool_fees(0, 0)));
    assert_eq!(reserves(&ledger, "p"), (3, 4));
    assert_eq!(reserves(&ledger, "q"), (5, 6));
    assert_eq!(get_pool(&ledger, &"r".to_string()).unwrap_err(), ContractError::PoolNotFound);
}
