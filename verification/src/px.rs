//! Saturating integer pixel arithmetic.
//!
//! Layout runs in whole-pixel space on `i64` coordinates. Every
//! arithmetic step saturates at the representable range instead of
//! wrapping, so the layout functions are total; the saturation points
//! are far outside any sensible screen geometry.

use vstd::prelude::*;

verus! {

/// Clamps a mathematical integer to the `i64` range.
pub open spec fn sat64(x: int) -> int {
    if x > i64::MAX {
        i64::MAX as int
    } else if x < i64::MIN {
        i64::MIN as int
    } else {
        x
    }
}

/// Division truncating toward zero, as the machine division does.
pub open spec fn tdiv(a: int, b: int) -> int
    recommends
        b > 0,
{
    if a >= 0 {
        a / b
    } else {
        -((-a) / b)
    }
}

/// Saturating pixel addition.
pub fn px_add(a: i64, b: i64) -> (r: i64)
    ensures
        r == sat64(a + b),
{
    match a.checked_add(b) {
        Some(v) => v,
        None => {
            if a > 0 {
                i64::MAX
            } else {
                i64::MIN
            }
        },
    }
}

/// Saturating pixel subtraction.
pub fn px_sub(a: i64, b: i64) -> (r: i64)
    ensures
        r == sat64(a - b),
{
    match a.checked_sub(b) {
        Some(v) => v,
        None => {
            if b < 0 {
                i64::MAX
            } else {
                i64::MIN
            }
        },
    }
}

/// The larger of two coordinates.
pub fn px_max(a: i64, b: i64) -> (r: i64)
    ensures
        r == if a >= b {
            a as int
        } else {
            b as int
        },
{
    if a >= b {
        a
    } else {
        b
    }
}

/// The smaller of two coordinates.
pub fn px_min_of(a: i64, b: i64) -> (r: i64)
    ensures
        r == if a <= b {
            a as int
        } else {
            b as int
        },
{
    if a <= b {
        a
    } else {
        b
    }
}

/// Scales a length by a per-mille factor, saturating the product.
pub open spec fn spec_px_scale(p: int, f: int) -> int {
    tdiv(sat64(p * f), 1000)
}

/// `p * f / 1000` with a saturating product; `f` is a per-mille factor.
pub fn px_scale(p: i64, f: u32) -> (r: i64)
    ensures
        r == spec_px_scale(p as int, f as int),
{
    let m: i64 = match p.checked_mul(f as i64) {
        Some(v) => v,
        None => {
            proof {
                if p > 0 {
                    assert(p * f >= 0) by (nonlinear_arith)
                        requires
                            p > 0,
                            f >= 0,
                    ;
                } else {
                    assert(p * f <= 0) by (nonlinear_arith)
                        requires
                            p <= 0,
                            f >= 0,
                    ;
                }
            }
            if p > 0 {
                i64::MAX
            } else {
                i64::MIN
            }
        },
    };
    px_div(m, 1000)
}

/// Saturating pixel multiplication.
pub fn px_mul(a: i64, b: i64) -> (r: i64)
    ensures
        r == sat64(a * b),
{
    match a.checked_mul(b) {
        Some(v) => v,
        None => {
            proof {
                if (a > 0) == (b > 0) {
                    assert(a * b > 0) by (nonlinear_arith)
                        requires
                            a != 0,
                            b != 0,
                            (a > 0) == (b > 0),
                    ;
                } else {
                    assert(a * b < 0) by (nonlinear_arith)
                        requires
                            a != 0,
                            b != 0,
                            (a > 0) != (b > 0),
                    ;
                }
            }
            if (a > 0) == (b > 0) {
                i64::MAX
            } else {
                i64::MIN
            }
        },
    }
}

/// Saturating multiplication by an unsigned count.
pub fn px_mul_count(a: i64, n: u64) -> (r: i64)
    ensures
        r == sat64(a * n),
{
    if n <= i64::MAX as u64 {
        px_mul(a, n as i64)
    } else if a == 0 {
        proof {
            assert(a * n == 0) by (nonlinear_arith)
                requires
                    a == 0,
            ;
        }
        0
    } else {
        proof {
            if a > 0 {
                assert(a * n >= n) by (nonlinear_arith)
                    requires
                        a >= 1,
                        n > 0,
                ;
            } else {
                assert(a * n <= -(n as int)) by (nonlinear_arith)
                    requires
                        a <= -1,
                        n > 0,
                ;
            }
        }
        if a > 0 {
            i64::MAX
        } else {
            i64::MIN
        }
    }
}

/// Truncating division of a pixel coordinate by a positive divisor.
pub fn px_div(a: i64, b: u64) -> (r: i64)
    requires
        2 <= b <= i64::MAX,
    ensures
        r == tdiv(a as int, b as int),
{
    if a >= 0 {
        let q: u64 = (a as u64) / b;
        proof {
            assert(q <= a) by (nonlinear_arith)
                requires
                    a >= 0,
                    b >= 2,
                    q == (a as int) / (b as int),
            ;
        }
        q as i64
    } else {
        // |i64::MIN| still fits in u64, so negate in the unsigned domain.
        let n: u64 = (-(a as i128)) as u64;
        proof {
            assert(n == -(a as int));
        }
        let q: u64 = n / b;
        proof {
            assert(2 * q <= n) by (nonlinear_arith)
                requires
                    b >= 2,
                    q == (n as int) / (b as int),
            ;
        }
        -(q as i64)
    }
}

/// Halves a coordinate, truncating toward zero; used for centering.
pub fn px_half(a: i64) -> (r: i64)
    ensures
        r == tdiv(a as int, 2),
{
    px_div(a, 2)
}

} // verus!
