use liquidity_hub::asset::{Asset, AssetInfo};
use liquidity_hub::decimal::{Decimal, Fee, PoolFee};
use liquidity_hub::error::ContractError;
use liquidity_hub::spread::{
    assert_max_spread, assert_slippage_tolerance, normalize_amounts, ten_pow,
};
use liquidity_hub::swap_math::{compute_offer_amount, compute_swap};
use liquidity_hub::wide::U256;

fn fees(swap: u64, protocol: u64, burn: u64) -> PoolFee {
    PoolFee {
        swap_fee: Fee { share: Decimal::permille(swap) },
        protocol_fee: Fee { share: Decimal::permille(protocol) },
        burn_fee: Fee { share: Decimal::permille(burn) },
    }
}

fn native(denom: &str, amount: u128) -> Asset {
    Asset { info: AssetInfo::NativeToken { denom: denom.to_string() }, amount }
}

#[test]
fn swap_takes_fees_from_the_pre_fee_return() {
    let c = compute_swap(1_000_000, 1_000_000, 1_000, fees(10, 10, 0)).unwrap();
    assert_eq!(c.return_amount, 981);
    assert_eq!(c.spread_amount, 1);
    assert_eq!(c.swap_fee_amount, 9);
    assert_eq!(c.protocol_fee_amount, 9);
    assert_eq!(c.burn_fee_amount, 0);
}

#[test]
fn swap_on_unbalanced_pool() {
    let c = compute_swap(1_000, 2_000, 100, fees(3, 1, 1)).unwrap();
    assert_eq!(c.return_amount, 181);
    assert_eq!(c.spread_amount, 19);
    assert_eq!(c.swap_fee_amount, 0);
}

#[test]
fn swap_with_burn_fee() {
    let c = compute_swap(1_000_000, 1_000_000, 100_000, fees(10, 10, 10)).unwrap();
    // raw return 90909, each fee 909
    assert_eq!(c.burn_fee_amount, 909);
    assert_eq!(c.return_amount, 90_909 - 3 * 909);
}

#[test]
fn spread_is_zero_when_the_truncated_spot_price_undervalues_the_offer() {
    // the 18-decimal spot price of 8 / 2000000000000000003 truncates to zero
    let c = compute_swap(2_000_000_000_000_000_003, 8, 300_000_000_000_000_000, fees(0, 0, 0)).unwrap();
    assert_eq!(c.return_amount, 1);
    assert_eq!(c.spread_amount, 0);
    // an 18-decimal token against a 6-decimal one
    let c = compute_swap(1_500_000_000_000_000_000_000_000_000_000, 1_000_000_000_000, 2_000_000_000_000_000_000, fees(3, 1, 0))
        .unwrap();
    assert_eq!(c.spread_amount, 0);
    assert_eq!(c.return_amount, 1);
}

#[test]
fn swap_against_empty_offer_pool_divides_by_zero() {
    assert_eq!(compute_swap(0, 1_000, 10, fees(0, 0, 0)), Err(ContractError::DivideByZero));
}

#[test]
fn swap_with_fees_above_one_overflows() {
    let over = PoolFee {
        swap_fee: Fee { share: Decimal::percent(80) },
        protocol_fee: Fee { share: Decimal::percent(30) },
        burn_fee: Fee { share: Decimal::zero() },
    };
    assert_eq!(compute_swap(1_000, 1_000, 100, over), Err(ContractError::Overflow));
}

#[test]
fn swap_spread_beyond_u128_does_not_convert() {
    let r = compute_swap(1, u128::MAX, u128::MAX, fees(0, 0, 0));
    assert_eq!(r, Err(ContractError::ConversionOverflow));
}

#[test]
fn swap_of_large_amounts_uses_wide_products() {
    let big = 1_000_000_000_000_000_000_000_000_000_000u128;
    let c = compute_swap(big, big, big, fees(0, 0, 0)).unwrap();
    assert_eq!(c.return_amount, big / 2);
    assert_eq!(c.spread_amount, big / 2);
}

#[test]
fn offer_amount_for_a_wished_return() {
    let c = compute_offer_amount(1_000_000, 1_000_000, 981, fees(10, 10, 0)).unwrap();
    assert_eq!(c.offer_amount, 1_002);
    assert_eq!(c.spread_amount, 1);
    assert_eq!(c.swap_fee_amount, 10);
    assert_eq!(c.protocol_fee_amount, 10);
}

#[test]
fn offer_amount_beyond_the_pool_fails() {
    assert_eq!(
        compute_offer_amount(1_000, 1_000, 1_000, fees(0, 0, 0)),
        Err(ContractError::DivideByZero)
    );
    assert_eq!(
        compute_offer_amount(1_000, 1_000, 2_000, fees(0, 0, 0)),
        Err(ContractError::Overflow)
    );
}

#[test]
fn offer_amount_with_fees_of_one_divides_by_zero() {
    let all = PoolFee {
        swap_fee: Fee { share: Decimal::one() },
        protocol_fee: Fee { share: Decimal::zero() },
        burn_fee: Fee { share: Decimal::zero() },
    };
    assert_eq!(compute_offer_amount(1_000, 1_000, 1, all), Err(ContractError::DivideByZero));
}

#[test]
fn round_trip_without_fees_never_overshoots() {
    let c = compute_swap(1_000_000, 1_000_000, 1_000, fees(0, 0, 0)).unwrap();
    assert_eq!(c.return_amount, 999);
    let back = compute_offer_amount(1_000_000, 1_000_000, c.return_amount, fees(0, 0, 0)).unwrap();
    assert_eq!(back.offer_amount, 999);
    assert!(back.offer_amount <= 1_000);
}

#[test]
fn round_trip_with_fees_stays_close_on_a_deep_pool() {
    let f = fees(3, 1, 0);
    let c = compute_swap(1_000_000_000, 1_000_000_000, 1_000_000, f).unwrap();
    let back = compute_offer_amount(1_000_000_000, 1_000_000_000, c.return_amount, f).unwrap();
    assert!(back.offer_amount.abs_diff(1_000_000) <= 3);
}

#[test]
fn round_trip_with_fees_can_overshoot_on_a_shallow_pool() {
    let f = PoolFee {
        swap_fee: Fee { share: Decimal::zero() },
        protocol_fee: Fee { share: Decimal::raw(85_486_786_887_040_037) },
        burn_fee: Fee { share: Decimal::zero() },
    };
    let c = compute_swap(534, 6_216_339, 98_350_163, f).unwrap();
    let back = compute_offer_amount(534, 6_216_339, c.return_amount, f).unwrap();
    assert_eq!(back.offer_amount - 98_350_163, 2_240_970);
}

#[test]
fn product_of_reserves_grows_with_a_swap() {
    let (op, ap, oa) = (5_000u128, 7_000u128, 1_234u128);
    let c = compute_swap(op, ap, oa, fees(3, 1, 1)).unwrap();
    let paid = c.return_amount + c.protocol_fee_amount + c.burn_fee_amount;
    assert!((op + oa) * (ap - paid) >= op * ap);
}

#[test]
fn max_spread_boundary_is_inclusive() {
    // belief price 1, offer 100, return 90: implied spread exactly 0.1
    let at = assert_max_spread(
        Some(Decimal::one()),
        Some(Decimal::percent(10)),
        native("a", 100),
        native("b", 90),
        0,
        6,
        6,
    );
    assert_eq!(at, Ok(()));
    let above = assert_max_spread(
        Some(Decimal::one()),
        Some(Decimal::raw(99_999_999_999_999_999)),
        native("a", 100),
        native("b", 90),
        0,
        6,
        6,
    );
    assert_eq!(above, Err(ContractError::MaxSpreadAssertion));
}

#[test]
fn max_spread_without_belief_price_uses_pool_spread() {
    let ok = assert_max_spread(None, Some(Decimal::percent(10)), native("a", 100), native("b", 90), 10, 6, 6);
    assert_eq!(ok, Ok(()));
    let bad = assert_max_spread(None, Some(Decimal::percent(9)), native("a", 100), native("b", 90), 10, 6, 6);
    assert_eq!(bad, Err(ContractError::MaxSpreadAssertion));
    let none = assert_max_spread(None, None, native("a", 100), native("b", 1), 99, 6, 6);
    assert_eq!(none, Ok(()));
}

#[test]
fn max_spread_with_zero_belief_price_divides_by_zero() {
    let r = assert_max_spread(Some(Decimal::zero()), Some(Decimal::percent(1)), native("a", 1), native("b", 1), 0, 6, 6);
    assert_eq!(r, Err(ContractError::DivideByZero));
}

#[test]
fn max_spread_normalizes_decimals() {
    // one unit of a 6-decimal asset for 0.99 of an 8-decimal asset at belief price 1:
    // after normalization the shortfall is exactly 1%
    let at_one_percent = assert_max_spread(
        Some(Decimal::one()),
        Some(Decimal::percent(1)),
        native("a", 1_000_000),
        native("b", 99_000_000),
        0,
        6,
        8,
    );
    assert_eq!(at_one_percent, Ok(()));
    let below = assert_max_spread(
        Some(Decimal::one()),
        Some(Decimal::permille(5)),
        native("a", 1_000_000),
        native("b", 99_000_000),
        0,
        6,
        8,
    );
    assert_eq!(below, Err(ContractError::MaxSpreadAssertion));
    // read on one scale, the same amounts show no shortfall at all
    let unscaled = assert_max_spread(
        Some(Decimal::one()),
        Some(Decimal::permille(5)),
        native("a", 1_000_000),
        native("b", 99_000_000),
        0,
        8,
        8,
    );
    assert_eq!(unscaled, Ok(()));
}

#[test]
fn normalization_scales_the_lower_decimal_side_by_a_power_of_ten() {
    let (o, t, s) = normalize_amounts(1_000_000, 100_000_000, 5_000, 6, 8).unwrap();
    assert_eq!((o, t, s), (100_000_000, 100_000_000, 5_000));
    // the offer/return ratio differs from the raw one by exactly 10^2
    assert_eq!(o / t, 1);
    assert_eq!(100_000_000u128 / 1_000_000, 100);
    assert_eq!(o, 1_000_000 * 100);
    let (o2, t2, s2) = normalize_amounts(100_000_000, 1_000_000, 5_000, 8, 6).unwrap();
    assert_eq!((o2, t2, s2), (100_000_000, 100_000_000, 500_000));
    assert_eq!(ten_pow(18), 1_000_000_000_000_000_000);
    assert_eq!(normalize_amounts(u128::MAX, 1, 1, 0, 18), Err(ContractError::Overflow));
}

#[test]
fn slippage_tolerance_checks_both_directions() {
    let pools = [native("a", 100), native("b", 100)];
    let tol = Some(Decimal::percent(1));
    assert_eq!(assert_slippage_tolerance(&tol, &[98, 100], &pools), Err(ContractError::MaxSlippageAssertion));
    assert_eq!(assert_slippage_tolerance(&tol, &[100, 98], &pools), Err(ContractError::MaxSlippageAssertion));
    assert_eq!(assert_slippage_tolerance(&tol, &[99, 100], &pools), Ok(()));
    assert_eq!(assert_slippage_tolerance(&None, &[1, 100], &pools), Ok(()));
}

#[test]
fn slippage_tolerance_above_one_is_a_configuration_error() {
    let pools = [native("a", 100), native("b", 100)];
    let tol = Some(Decimal::percent(101));
    assert_eq!(assert_slippage_tolerance(&tol, &[100, 100], &pools), Err(ContractError::InvalidSlippageTolerance));
}

#[test]
fn slippage_against_empty_pool_divides_by_zero() {
    let pools = [native("a", 100), native("b", 0)];
    let tol = Some(Decimal::percent(1));
    assert_eq!(assert_slippage_tolerance(&tol, &[100, 100], &pools), Err(ContractError::DivideByZero));
}

#[test]
fn wide_integers_add_and_subtract_across_the_halves() {
    let a = U256 { hi: 0, lo: u128::MAX };
    let b = U256::from_u128(1);
    let s = a.checked_add(b).unwrap();
    assert_eq!(s, U256 { hi: 1, lo: 0 });
    assert_eq!(s.checked_sub(b).unwrap(), a);
    assert_eq!(b.checked_sub(a), None);
    assert_eq!(U256 { hi: u128::MAX, lo: u128::MAX }.checked_add(b), None);
    assert!(a.lt(s));
    assert_eq!(s.to_u128(), None);
}
