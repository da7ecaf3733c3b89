//! The collateral policy: the loan-to-value ceiling and the plan-request
//! gate.
//!
//! The ceiling is checked before availability, since it is the tighter
//! economic constraint and should be surfaced first.

use vstd::prelude::*;
use vstd::arithmetic::div_mod::{
    lemma_fundamental_div_mod, lemma_fundamental_div_mod_converse, lemma_div_pos_is_pos,
    lemma_div_nonincreasing,
};
use crate::errors::ContractError;
use crate::math::tdiv;
use crate::math::tmod;
use crate::ledger::BPS_DIVISOR;

verus! {

/// Loan-to-value ceiling in basis points: a plan may use up to 80% of the
/// user's total value.
pub const MAX_LTV_BPS: i128 = 8000;

/// Liquidation threshold in basis points, reserved for risk alerting; not
/// enforced by the core logic.
pub const LIQUIDATION_THRESHOLD_BPS: i128 = 8500;

/// The largest plan amount the policy allows against a total value.
pub open spec fn spec_max_loan_amount(total_value: int) -> int {
    tdiv(total_value * MAX_LTV_BPS, BPS_DIVISOR as int)
}

/// What [`validate_plan_request`] returns: the ceiling violation first,
/// then the availability violation, else acceptance.
pub open spec fn spec_validate_plan_request(
    total_amount: int,
    available_value: int,
    total_value: int,
) -> Result<(), ContractError> {
    if total_amount > spec_max_loan_amount(total_value) {
        Err(ContractError::ExceedsMaxLTV)
    } else if total_amount > available_value {
        Err(ContractError::InsufficientAvailable)
    } else {
        Ok(())
    }
}

/// For a non-negative value, splitting off quotient and remainder by the
/// basis-point divisor computes the scaled quotient exactly and keeps it
/// within the value itself.
proof fn lemma_split_nonneg(m: int)
    requires
        m >= 0,
    ensures
        (m * 8000) / 10000 == (m / 10000) * 8000 + ((m % 10000) * 8000) / 10000,
        0 <= (m / 10000) * 8000 + ((m % 10000) * 8000) / 10000 <= m,
        m * 8000 >= 0,
{
    let q = m / 10000;
    let r = m % 10000;
    lemma_fundamental_div_mod(m, 10000);
    let q2 = (r * 8000) / 10000;
    let r2 = (r * 8000) % 10000;
    lemma_fundamental_div_mod(r * 8000, 10000);
    assert(m * 8000 == (q * 8000 + q2) * 10000 + r2) by (nonlinear_arith)
        requires
            m == 10000 * q + r,
            r * 8000 == 10000 * q2 + r2,
    ;
    assert(m * 8000 >= 0) by (nonlinear_arith)
        requires
            m >= 0,
    ;
    lemma_fundamental_div_mod_converse(m * 8000, 10000, q * 8000 + q2, r2);
    lemma_div_pos_is_pos(m, 10000);
    lemma_div_pos_is_pos(r * 8000, 10000);
    assert(q2 <= r) by (nonlinear_arith)
        requires
            0 <= r < 10000,
            r * 8000 == 10000 * q2 + r2,
            0 <= r2 < 10000,
            q2 >= 0,
    ;
}

/// The scaled truncated quotient splits across the quotient and remainder
/// by the basis-point divisor, and never exceeds the value in magnitude.
proof fn lemma_max_loan_decompose(x: int)
    ensures
        tdiv(x * 8000, 10000) == tdiv(x, 10000) * 8000 + tdiv(tmod(x, 10000) * 8000, 10000),
        x >= 0 ==> 0 <= tdiv(x * 8000, 10000) <= x,
        x < 0 ==> x <= tdiv(x * 8000, 10000) <= 0,
{
    if x == 0 {
        assert(tdiv(0, 10000) == 0);
        assert(tmod(0, 10000) == 0);
    } else if x > 0 {
        lemma_split_nonneg(x);
        lemma_fundamental_div_mod(x, 10000);
        assert(x * 8000 > 0) by (nonlinear_arith)
            requires
                x >= 1,
        ;
        assert(tdiv(x, 10000) == x / 10000);
        assert(tmod(x, 10000) == x % 10000);
        assert(tdiv(x * 8000, 10000) == (x * 8000) / 10000);
        if (x % 10000) * 8000 == 0 {
            assert(((x % 10000) * 8000) / 10000 == 0);
        }
        assert(tdiv(tmod(x, 10000) * 8000, 10000) == ((x % 10000) * 8000) / 10000);
    } else {
        let m = x * -1;
        lemma_split_nonneg(m);
        lemma_fundamental_div_mod(m, 10000);
        assert(m * 8000 >= 8000) by (nonlinear_arith)
            requires
                m >= 1,
        ;
        assert((x * 8000) * -1 == m * 8000) by (nonlinear_arith)
            requires
                m == x * -1,
        ;
        assert(x * 8000 < 0);
        assert(tdiv(x * 8000, 10000) == ((m * 8000) / 10000) * -1);
        assert(tdiv(x, 10000) == (m / 10000) * -1);
        assert(tmod(x, 10000) == (m % 10000) * -1);
        let rm = m % 10000;
        assert((rm * -1) * 8000 == (rm * 8000) * -1) by (nonlinear_arith);
        if rm * 8000 == 0 {
            assert(tdiv(tmod(x, 10000) * 8000, 10000) == 0);
            assert((rm * 8000) / 10000 == 0);
        } else {
            assert(rm * 8000 > 0) by (nonlinear_arith)
                requires
                    rm >= 0,
                    rm * 8000 != 0,
            ;
            assert(tmod(x, 10000) * 8000 < 0);
            assert((tmod(x, 10000) * 8000) * -1 == rm * 8000);
            assert(tdiv(tmod(x, 10000) * 8000, 10000) == ((rm * 8000) / 10000) * -1);
        }
        assert(((m / 10000) * -1) * 8000 == ((m / 10000) * 8000) * -1) by (nonlinear_arith);
    }
}

/// The quotient by the basis-point divisor lies between zero and the
/// dividend, and the remainder is smaller than the divisor in magnitude.
proof fn lemma_tdiv_tmod_10000_bounds(x: int)
    ensures
        x >= 0 ==> 0 <= tdiv(x, 10000) <= x,
        x < 0 ==> x <= tdiv(x, 10000) <= 0,
        -10000 < tmod(x, 10000) < 10000,
        x >= 0 ==> tmod(x, 10000) >= 0,
        x < 0 ==> tmod(x, 10000) <= 0,
{
    if x > 0 {
        lemma_div_pos_is_pos(x, 10000);
        lemma_div_nonincreasing(x, 10000);
    } else if x < 0 {
        let m = x * -1;
        lemma_div_pos_is_pos(m, 10000);
        lemma_div_nonincreasing(m, 10000);
    }
}

/// The highest plan amount allowed against `total_value`: 80% of it,
/// rounded toward zero. Computed by splitting quotient and remainder so
/// no intermediate product can overflow.
pub fn max_loan_amount(total_value: i128) -> (r: i128)
    ensures
        r as int == spec_max_loan_amount(total_value as int),
{
    proof {
        lemma_tdiv_tmod_10000_bounds(total_value as int);
        lemma_max_loan_decompose(total_value as int);
    }
    let q = match total_value.checked_div(10000) {
        Some(v) => v,
        None => {
            proof {
                assert(false);
            }
            0
        },
    };
    let rem = match total_value.checked_rem(10000) {
        Some(v) => v,
        None => {
            proof {
                assert(false);
            }
            0
        },
    };
    let rq = match (rem * 8000).checked_div(10000) {
        Some(v) => v,
        None => {
            proof {
                assert(false);
            }
            0
        },
    };
    q * 8000 + rq
}

/// Gate a plan request: the loan-to-value ceiling is enforced first, then
/// that the user's available value can cover the request.
pub fn validate_plan_request(
    total_amount: i128,
    available_value: i128,
    total_value: i128,
) -> (r: Result<(), ContractError>)
    ensures
        r == spec_validate_plan_request(
            total_amount as int,
            available_value as int,
            total_value as int,
        ),
{
    let max_amount = max_loan_amount(total_value);
    if total_amount > max_amount {
        Err(ContractError::ExceedsMaxLTV)
    } else if total_amount > available_value {
        Err(ContractError::InsufficientAvailable)
    } else {
        Ok(())
    }
}

} // verus!
