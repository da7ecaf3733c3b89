//! The pricing adapter: conversion between underlying-asset amounts and
//! reserve shares, priced against the reserve's reported totals.
//!
//! `shares_for_amount` rounds up (the caller never under-collateralizes the
//! reserve); `value_for_shares` rounds down (a holder is never over-credited
//! in value terms).

use vstd::prelude::*;
use vstd::arithmetic::div_mod::{
    lemma_fundamental_div_mod, lemma_div_is_ordered, lemma_div_multiples_vanish,
    lemma_div_pos_is_pos,
};
use crate::errors::BufferError;
use crate::math::{fits_i128, tdiv, tmod, spec_mul_div, spec_mul_div_ceil, mul_div, mul_div_ceil};

verus! {

/// What [`shares_for_amount`] returns for a given amount against reported
/// reserve totals.
pub open spec fn spec_shares_for_amount(
    amount: int,
    total_managed: int,
    total_shares: int,
) -> Result<i128, BufferError> {
    if amount < 1 {
        Err(BufferError::InvalidAmount)
    } else if total_shares == 0 || total_managed == 0 {
        Ok(amount as i128)
    } else {
        spec_mul_div_ceil(amount, total_shares, total_managed)
    }
}

/// What [`value_for_shares`] returns for a share count against reported
/// reserve totals.
pub open spec fn spec_value_for_shares(
    shares: int,
    total_managed: int,
    total_shares: int,
) -> Result<i128, BufferError> {
    if shares == 0 || total_shares == 0 {
        Ok(0i128)
    } else {
        spec_mul_div(shares, total_managed, total_shares)
    }
}

/// Shares needed to cover `amount` units of value, rounded up. At genesis
/// (the reserve reports zero shares outstanding or zero managed value) one
/// share equals one unit of value.
pub fn shares_for_amount(amount: i128, total_managed: i128, total_shares: i128) -> (r: Result<
    i128,
    BufferError,
>)
    ensures
        r == spec_shares_for_amount(amount as int, total_managed as int, total_shares as int),
{
    if amount < 1 {
        return Err(BufferError::InvalidAmount);
    }
    if total_shares == 0 || total_managed == 0 {
        Ok(amount)
    } else {
        mul_div_ceil(amount, total_shares, total_managed)
    }
}

/// Value of a share count, rounded down. A balance of zero shares, or a
/// reserve with no shares outstanding, is worth zero.
pub fn value_for_shares(shares: i128, total_managed: i128, total_shares: i128) -> (r: Result<
    i128,
    BufferError,
>)
    ensures
        r == spec_value_for_shares(shares as int, total_managed as int, total_shares as int),
{
    if shares == 0 || total_shares == 0 {
        Ok(0)
    } else {
        mul_div(shares, total_managed, total_shares)
    }
}

/// Law: ceiling pricing never under-collateralizes. Whenever the reserve
/// reports positive totals, the shares quoted for an amount, priced back
/// into value with floor rounding, cover at least that amount — both
/// conversions taken on the inputs where they succeed.
pub proof fn lemma_shares_cover_amount(
    amount: int,
    total_managed: int,
    total_shares: int,
    shares: i128,
    value: i128,
)
    requires
        amount >= 1,
        total_managed >= 1,
        total_shares >= 1,
        spec_shares_for_amount(amount, total_managed, total_shares) == Ok::<i128, BufferError>(
            shares,
        ),
        spec_value_for_shares(shares as int, total_managed, total_shares) == Ok::<
            i128,
            BufferError,
        >(value),
    ensures
        value >= amount,
        shares >= 1,
{
    let prod = amount * total_shares;
    assert(amount * total_shares >= 1) by (nonlinear_arith)
        requires
            amount >= 1,
            total_shares >= 1,
    ;
    let d = prod / total_managed;
    let m = prod % total_managed;
    lemma_fundamental_div_mod(prod, total_managed);
    lemma_div_pos_is_pos(prod, total_managed);
    assert(tdiv(prod, total_managed) == d);
    assert(tmod(prod, total_managed) == m);
    // The quoted share count covers the product: shares * total_managed >= prod.
    if m == 0 {
        assert(shares == d);
        assert(shares as int * total_managed == prod) by (nonlinear_arith)
            requires
                shares == d,
                prod == total_managed * d + m,
                m == 0,
        ;
    } else {
        assert(shares == d + 1);
        assert(shares as int * total_managed >= prod) by (nonlinear_arith)
            requires
                shares == d + 1,
                prod == total_managed * d + m,
                m < total_managed,
        ;
    }
    assert(shares >= 1) by (nonlinear_arith)
        requires
            shares as int * total_managed >= prod,
            prod >= 1,
            total_managed >= 1,
            shares == d || shares == d + 1,
            d >= 0,
    ;
    // Floor-pricing the shares back: value == (shares * total_managed) / total_shares.
    let back = shares as int * total_managed;
    assert(back >= 1);
    assert(tdiv(back, total_shares) == back / total_shares);
    assert(value == back / total_shares);
    // back / total_shares >= (amount * total_shares) / total_shares == amount.
    lemma_div_is_ordered(prod, back, total_shares);
    lemma_div_multiples_vanish(amount, total_shares);
    assert(amount * total_shares == total_shares * amount) by (nonlinear_arith);
    assert(prod / total_shares == amount);
}

} // verus!
