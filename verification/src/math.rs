//! Fixed-point arithmetic primitives of the pricing engine.
//!
//! All multiplication is done before division and checked for overflow;
//! overflow and division by zero are reported as distinct conditions and
//! never silently wrap.

use vstd::prelude::*;
use crate::errors::BufferError;

verus! {

/// True when `x` is representable as an `i128`.
pub open spec fn fits_i128(x: int) -> bool {
    i128::MIN <= x <= i128::MAX
}

/// Truncated (round-toward-zero) quotient: the semantics of `/` on Rust's
/// signed integers. Agrees with Euclidean division when both operands are
/// non-negative.
pub open spec fn tdiv(a: int, b: int) -> int
    recommends
        b != 0,
{
    if a == 0 {
        0
    } else if a > 0 && b > 0 {
        a / b
    } else if a < 0 && b < 0 {
        (a * -1) / (b * -1)
    } else if a < 0 {
        ((a * -1) / b) * -1
    } else {
        (a / (b * -1)) * -1
    }
}

/// Truncated remainder: the semantics of `%` on Rust's signed integers.
/// Carries the sign of the dividend.
pub open spec fn tmod(a: int, b: int) -> int
    recommends
        b != 0,
{
    if a == 0 {
        0
    } else if a > 0 && b > 0 {
        a % b
    } else if a < 0 && b < 0 {
        ((a * -1) % (b * -1)) * -1
    } else if a < 0 {
        ((a * -1) % b) * -1
    } else {
        a % (b * -1)
    }
}

/// What [`mul_div`] returns: the floor-direction quotient `a * b / c`, or
/// the distinct failure condition.
pub open spec fn spec_mul_div(a: int, b: int, c: int) -> Result<i128, BufferError> {
    if c == 0 {
        Err(BufferError::DivisionByZero)
    } else if !fits_i128(a * b) {
        Err(BufferError::MathOverflow)
    } else if !fits_i128(tdiv(a * b, c)) {
        Err(BufferError::MathOverflow)
    } else {
        Ok((tdiv(a * b, c)) as i128)
    }
}

/// What [`mul_div_ceil`] returns: the quotient `a * b / c` rounded away
/// from the truncated quotient whenever a remainder is left, or the
/// distinct failure condition.
pub open spec fn spec_mul_div_ceil(a: int, b: int, c: int) -> Result<i128, BufferError> {
    if c == 0 {
        Err(BufferError::DivisionByZero)
    } else if !fits_i128(a * b) {
        Err(BufferError::MathOverflow)
    } else if !fits_i128(tdiv(a * b, c)) {
        Err(BufferError::MathOverflow)
    } else if tmod(a * b, c) == 0 {
        Ok((tdiv(a * b, c)) as i128)
    } else if !fits_i128(tdiv(a * b, c) + 1) {
        Err(BufferError::MathOverflow)
    } else {
        Ok((tdiv(a * b, c) + 1) as i128)
    }
}

/// Multiply, then divide with truncation toward zero.
pub fn mul_div(a: i128, b: i128, c: i128) -> (r: Result<i128, BufferError>)
    ensures
        r == spec_mul_div(a as int, b as int, c as int),
{
    if c == 0 {
        return Err(BufferError::DivisionByZero);
    }
    let prod = match a.checked_mul(b) {
        Some(p) => p,
        None => {
            return Err(BufferError::MathOverflow);
        },
    };
    match prod.checked_div(c) {
        Some(q) => Ok(q),
        None => Err(BufferError::MathOverflow),
    }
}

/// Multiply, then divide, rounding up whenever a remainder is left so the
/// caller never under-collateralizes.
pub fn mul_div_ceil(a: i128, b: i128, c: i128) -> (r: Result<i128, BufferError>)
    ensures
        r == spec_mul_div_ceil(a as int, b as int, c as int),
{
    if c == 0 {
        return Err(BufferError::DivisionByZero);
    }
    let prod = match a.checked_mul(b) {
        Some(p) => p,
        None => {
            return Err(BufferError::MathOverflow);
        },
    };
    let div = match prod.checked_div(c) {
        Some(q) => q,
        None => {
            return Err(BufferError::MathOverflow);
        },
    };
    let rem = match prod.checked_rem(c) {
        Some(m) => m,
        None => {
            proof {
                // Reached only for prod == i128::MIN, c == -1, where the
                // magnitude of the quotient exceeds the i128 range.
                assert(((prod as int) * -1) / ((c as int) * -1) == (prod as int) * -1)
                    by (nonlinear_arith)
                    requires
                        c as int == -1,
                ;
            }
            return Err(BufferError::MathOverflow);
        },
    };
    if rem == 0 {
        Ok(div)
    } else {
        match div.checked_add(1) {
            Some(q) => Ok(q),
            None => Err(BufferError::MathOverflow),
        }
    }
}

} // verus!
