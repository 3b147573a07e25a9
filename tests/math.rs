use pump_clone::{ErrorCode, MathUtils};

#[test]
fn test_calculate_buy_price() {
    let result = MathUtils::calculate_buy_price(1000, 100, 1000, 10000);
    assert!(result.is_ok());
}

#[test]
fn test_calculate_sell_price() {
    let result = MathUtils::calculate_sell_price(1000, 100, 1000, 10000);
    assert!(result.is_ok());
}

#[test]
fn test_calculate_current_price() {
    let result = MathUtils::calculate_current_price(1000, 1000, 10000);
    assert!(result.is_ok());
}

#[test]
fn test_calculate_slippage() {
    let result = MathUtils::calculate_slippage(1000, 1100);
    assert!(result.is_ok());
    assert_eq!(result.unwrap(), 1000);
}

#[test]
fn test_calculate_fee() {
    let result = MathUtils::calculate_fee(10000, 100);
    assert!(result.is_ok());
    assert_eq!(result.unwrap(), 100);
}

#[test]
fn polynomial_buy_cost_is_the_integral_between_supplies() {
    assert_eq!(MathUtils::calculate_buy_price(1000, 100, 1000, 10000), Ok(122103));
}

#[test]
fn polynomial_sell_value_is_the_integral_between_supplies() {
    assert_eq!(MathUtils::calculate_sell_price(1000, 100, 1000, 10000), Ok(119903));
}

#[test]
fn polynomial_spot_price_squares_the_growth() {
    assert_eq!(MathUtils::calculate_current_price(1000, 1000, 10000), Ok(1210));
    assert_eq!(MathUtils::calculate_current_price(0, 1000, 10000), Ok(1000));
    assert_eq!(MathUtils::calculate_current_price(10000, 1000, 10000), Ok(4000));
}

#[test]
fn polynomial_rejects_supply_outside_range() {
    assert_eq!(MathUtils::calculate_buy_price(10001, 1, 1000, 10000), Err(ErrorCode::SupplyExceeded));
    assert_eq!(MathUtils::calculate_buy_price(9950, 51, 1000, 10000), Err(ErrorCode::SupplyExceeded));
    assert_eq!(MathUtils::calculate_buy_price(0, u64::MAX, 1000, 10000), Err(ErrorCode::SupplyExceeded));
    assert_eq!(MathUtils::calculate_sell_price(100, 101, 1000, 10000), Err(ErrorCode::SupplyExceeded));
    assert_eq!(MathUtils::calculate_current_price(10001, 1000, 10000), Err(ErrorCode::SupplyExceeded));
}

#[test]
fn polynomial_rejects_zero_amount() {
    assert_eq!(MathUtils::calculate_buy_price(1000, 0, 1000, 10000), Err(ErrorCode::InvalidAmount));
    assert_eq!(MathUtils::calculate_sell_price(1000, 0, 1000, 10000), Err(ErrorCode::InvalidAmount));
    assert_eq!(MathUtils::calculate_sell_price(5, 0, 1, 1), Err(ErrorCode::InvalidAmount));
}

#[test]
fn polynomial_reports_overflow() {
    assert_eq!(
        MathUtils::calculate_buy_price(0, u64::MAX, u64::MAX, u64::MAX),
        Err(ErrorCode::Overflow)
    );
    assert_eq!(MathUtils::calculate_current_price(1, u64::MAX, 1), Err(ErrorCode::Overflow));
}

#[test]
fn current_price_with_zero_max_supply_divides_by_zero() {
    assert_eq!(MathUtils::calculate_current_price(0, 1000, 0), Err(ErrorCode::DivisionByZero));
}

#[test]
fn max_tokens_is_the_largest_affordable_amount() {
    let n = MathUtils::calculate_max_tokens_for_sol(1_000_000, 1000, 1000, 10000).unwrap();
    assert_eq!(n, 771);
    assert!(MathUtils::calculate_buy_price(1000, n, 1000, 10000).unwrap() <= 1_000_000);
    assert!(MathUtils::calculate_buy_price(1000, n + 1, 1000, 10000).unwrap() > 1_000_000);
}

#[test]
fn max_tokens_with_exact_budget_returns_that_amount() {
    assert_eq!(MathUtils::calculate_max_tokens_for_sol(122103, 1000, 1000, 10000), Ok(100));
    assert_eq!(MathUtils::calculate_max_tokens_for_sol(122102, 1000, 1000, 10000), Ok(99));
}

#[test]
fn max_tokens_is_capped_by_remaining_supply() {
    assert_eq!(MathUtils::calculate_max_tokens_for_sol(u64::MAX, 9990, 1000, 10000), Ok(10));
    assert_eq!(MathUtils::calculate_max_tokens_for_sol(u64::MAX, 10000, 1000, 10000), Ok(0));
}

#[test]
fn max_tokens_is_zero_when_one_unit_is_too_dear() {
    assert_eq!(MathUtils::calculate_max_tokens_for_sol(1, 1000, 1000, 10000), Ok(0));
}

#[test]
fn max_tokens_rejects_bad_inputs() {
    assert_eq!(MathUtils::calculate_max_tokens_for_sol(0, 1000, 1000, 10000), Err(ErrorCode::InvalidAmount));
    assert_eq!(MathUtils::calculate_max_tokens_for_sol(5, 10001, 1000, 10000), Err(ErrorCode::SupplyExceeded));
}

#[test]
fn fee_at_zero_rate_is_zero() {
    assert_eq!(MathUtils::calculate_fee(0, 0), Ok(0));
    assert_eq!(MathUtils::calculate_fee(123_456_789, 0), Ok(0));
    assert_eq!(MathUtils::calculate_fee(u64::MAX, 0), Ok(0));
}

#[test]
fn fee_truncates_and_reports_overflow() {
    assert_eq!(MathUtils::calculate_fee(9999, 1), Ok(0));
    assert_eq!(MathUtils::calculate_fee(u64::MAX, 10000), Ok(u64::MAX));
    assert_eq!(MathUtils::calculate_fee(u64::MAX, 20000), Err(ErrorCode::Overflow));
}

#[test]
fn slippage_in_both_directions() {
    assert_eq!(MathUtils::calculate_slippage(1000, 900), Ok(1000));
    assert_eq!(MathUtils::calculate_slippage(1000, 1000), Ok(0));
    assert_eq!(MathUtils::calculate_slippage(0, 5), Err(ErrorCode::DivisionByZero));
    assert_eq!(MathUtils::calculate_slippage(1, u64::MAX), Err(ErrorCode::Overflow));
}

#[test]
fn price_bounds() {
    assert_eq!(MathUtils::validate_price_bounds(5, 1, 10), Ok(()));
    assert_eq!(MathUtils::validate_price_bounds(0, 1, 10), Err(ErrorCode::PriceTooLow));
    assert_eq!(MathUtils::validate_price_bounds(11, 1, 10), Err(ErrorCode::PriceTooHigh));
}

#[test]
fn polynomial_price_of_a_small_supply_is_not_lost() {
    assert_eq!(MathUtils::calculate_buy_price(0, 1, 1_000_000, 1_000_000_000_000), Ok(1_000_000));
    assert_eq!(MathUtils::calculate_buy_price(1000, 1, 1000, 10000), Ok(1210));
}
