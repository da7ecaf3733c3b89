//! Pricing and policy tests: the two rounding directions, the fixed-point
//! primitives and their failure conditions, and the loan-to-value ceiling.

use buffer_bridge::errors::{BufferError, ContractError};
use buffer_bridge::math::{mul_div, mul_div_ceil};
use buffer_bridge::pricing::{shares_for_amount, value_for_shares};
use buffer_bridge::policy::{max_loan_amount, validate_plan_request};

#[test]
fn mul_div_floors() {
    assert_eq!(mul_div(7, 3, 2).unwrap(), 10);
    assert_eq!(mul_div(10, 10, 4).unwrap(), 25);
    assert_eq!(mul_div(1, 1, 3).unwrap(), 0);
    // Rust's signed division truncates toward zero.
    assert_eq!(mul_div(-7, 3, 2).unwrap(), -10);
}

#[test]
fn mul_div_ceil_rounds_up_on_remainder() {
    assert_eq!(mul_div_ceil(7, 3, 2).unwrap(), 11);
    assert_eq!(mul_div_ceil(10, 10, 4).unwrap(), 25);
    assert_eq!(mul_div_ceil(1, 1, 3).unwrap(), 1);
}

#[test]
fn division_by_zero_is_its_own_condition() {
    assert_eq!(mul_div(1, 1, 0).unwrap_err(), BufferError::DivisionByZero);
    assert_eq!(mul_div_ceil(1, 1, 0).unwrap_err(), BufferError::DivisionByZero);
}

#[test]
fn multiplication_overflow_is_reported() {
    assert_eq!(mul_div(i128::MAX, 2, 1).unwrap_err(), BufferError::MathOverflow);
    assert_eq!(mul_div_ceil(i128::MAX, 2, 1).unwrap_err(), BufferError::MathOverflow);
}

#[test]
fn shares_price_with_ceiling() {
    // 1000 value against a reserve of 30000 shares over 9999 managed:
    // 1000 * 30000 / 9999 rounds up.
    assert_eq!(shares_for_amount(1000, 9999, 30000).unwrap(), 3001);
    // An exact ratio stays exact.
    assert_eq!(shares_for_amount(1000, 10000, 10000).unwrap(), 1000);
}

#[test]
fn shares_at_genesis_are_one_to_one() {
    assert_eq!(shares_for_amount(750, 0, 0).unwrap(), 750);
    assert_eq!(shares_for_amount(750, 10000, 0).unwrap(), 750);
    assert_eq!(shares_for_amount(750, 0, 10000).unwrap(), 750);
}

#[test]
fn shares_for_amount_rejects_non_positive() {
    assert_eq!(shares_for_amount(0, 10000, 10000).unwrap_err(), BufferError::InvalidAmount);
    assert_eq!(shares_for_amount(-5, 10000, 10000).unwrap_err(), BufferError::InvalidAmount);
}

#[test]
fn value_prices_with_floor() {
    // 3001 shares against 9999 managed over 30000 shares floors down.
    assert_eq!(value_for_shares(3001, 9999, 30000).unwrap(), 1000);
    assert_eq!(value_for_shares(0, 9999, 30000).unwrap(), 0);
    assert_eq!(value_for_shares(500, 10000, 0).unwrap(), 0);
}

#[test]
fn ceiling_never_under_collateralizes() {
    // Pricing the quoted shares back always covers the amount.
    for (tm, ts) in [(9999i128, 30000i128), (7, 3), (1000000, 17), (3, 1000000)] {
        for amount in [1i128, 2, 999, 12345] {
            let shares = shares_for_amount(amount, tm, ts).unwrap();
            let back = value_for_shares(shares, tm, ts).unwrap();
            assert!(back >= amount);
        }
    }
}

#[test]
fn max_loan_is_80_percent_floored() {
    assert_eq!(max_loan_amount(10000), 8000);
    assert_eq!(max_loan_amount(0), 0);
    assert_eq!(max_loan_amount(1), 0);
    assert_eq!(max_loan_amount(9), 7);
    assert_eq!(max_loan_amount(12501), 10000);
    // The split computation cannot overflow even at the extremes.
    assert_eq!(max_loan_amount(i128::MAX), i128::MAX / 10000 * 8000 + 5727 * 8000 / 10000);
}

#[test]
fn plan_request_gate_orders_its_checks() {
    // The ceiling is the tighter constraint and is surfaced first.
    assert_eq!(
        validate_plan_request(9000, 10000, 10000).unwrap_err(),
        ContractError::ExceedsMaxLTV
    );
    assert_eq!(
        validate_plan_request(7000, 5000, 10000).unwrap_err(),
        ContractError::InsufficientAvailable
    );
    assert!(validate_plan_request(8000, 10000, 10000).is_ok());
    assert_eq!(
        validate_plan_request(8001, 10000, 10000).unwrap_err(),
        ContractError::ExceedsMaxLTV
    );
}

#[test]
fn error_codes_are_stable() {
    assert_eq!(BufferError::InvalidAmount.code(), 2);
    assert_eq!(BufferError::DepositTooFrequent.code(), 10);
    assert_eq!(BufferError::DivisionByZero.code(), 16);
    assert_eq!(ContractError::InvalidAmount.code(), 1);
    assert_eq!(ContractError::InsufficientFunds.code(), 11);
    assert_eq!(ContractError::ExceedsMaxLTV.code(), 15);
}
