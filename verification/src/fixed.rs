//! Fixed-point arithmetic helpers.
//!
//! A quantity of one unit (one world unit, one grid unit, one radian, a
//! blend weight of one) is stored as `SCALE` ticks of an `i64`.  Division
//! always rounds toward negative infinity, so the executable operators
//! agree with the mathematical `/` and `%` of the specifications.

use vstd::prelude::*;

verus! {

use vstd::arithmetic::div_mod::{
    lemma_fundamental_div_mod,
    lemma_fundamental_div_mod_converse_div,
    lemma_div_nonincreasing,
    lemma_mod_bound,
};

/// Number of ticks in one unit.
pub const SCALE: i64 = 65536;

/// The value of `v` clamped into `[lo, hi]`.
pub open spec fn clamp_spec(v: int, lo: int, hi: int) -> int {
    if v < lo {
        lo
    } else if v > hi {
        hi
    } else {
        v
    }
}

/// Clamps `v` into the closed interval `[lo, hi]`.
pub fn clamp_i64(v: i64, lo: i64, hi: i64) -> (r: i64)
    requires
        lo <= hi,
    ensures
        r == clamp_spec(v as int, lo as int, hi as int),
{
    if v < lo {
        lo
    } else if v > hi {
        hi
    } else {
        v
    }
}

/// Quotient rounded toward negative infinity; agrees with the
/// specification-level `/` for a positive divisor.
pub fn div_floor(a: i64, b: i64) -> (q: i64)
    requires
        0 < b,
        i64::MIN < a,
    ensures
        q == a as int / b as int,
{
    if a >= 0 {
        let q0: u64 = (a as u64) / (b as u64);
        proof {
            lemma_div_nonincreasing(a as int, b as int);
        }
        q0 as i64
    } else {
        let n: u64 = (-a) as u64;
        let q0: u64 = n / (b as u64);
        let r: u64 = n % (b as u64);
        proof {
            lemma_div_nonincreasing(n as int, b as int);
            lemma_mod_bound(n as int, b as int);
            lemma_fundamental_div_mod(n as int, b as int);
            assert(n == b * q0 + r);
            if r == 0 {
                assert(a as int == (-(q0 as int)) * b + 0) by (nonlinear_arith)
                    requires
                        n == b * q0,
                        a as int == -(n as int),
                ;
                lemma_fundamental_div_mod_converse_div(a as int, b as int, -(q0 as int), 0);
            } else {
                assert(a as int == (-(q0 as int) - 1) * b + (b - r)) by (nonlinear_arith)
                    requires
                        n == b * q0 + r,
                        a as int == -(n as int),
                ;
                lemma_fundamental_div_mod_converse_div(
                    a as int,
                    b as int,
                    -(q0 as int) - 1,
                    b - r,
                );
            }
        }
        if r == 0 {
            -(q0 as i64)
        } else {
            -(q0 as i64) - 1
        }
    }
}

/// Remainder of floor division; agrees with the specification-level `%`
/// for a positive divisor, so it always lies in `[0, b)`.
pub fn mod_floor(a: i64, b: i64) -> (r: i64)
    requires
        0 < b,
        i64::MIN + b < a,
    ensures
        r == a as int % b as int,
        0 <= r < b,
{
    let q: i64 = div_floor(a, b);
    proof {
        lemma_fundamental_div_mod(a as int, b as int);
        lemma_mod_bound(a as int, b as int);
    }
    a - b * q
}

/// Absolute value.
pub open spec fn abs_val(v: int) -> int {
    if v < 0 {
        -v
    } else {
        v
    }
}

/// Computes the absolute value.
pub fn abs_i64(v: i64) -> (r: i64)
    requires
        i64::MIN < v,
    ensures
        r == abs_val(v as int),
{
    if v < 0 {
        -v
    } else {
        v
    }
}

/// Dividing by a positive number cannot grow the magnitude.
pub proof fn lemma_div_abs_bound(a: int, b: int, m: int)
    requires
        0 < b,
        0 <= m,
        -m <= a <= m,
    ensures
        -m <= a / b <= m,
{
    if a >= 0 {
        lemma_div_nonincreasing(a, b);
        vstd::arithmetic::div_mod::lemma_div_pos_is_pos(a, b);
    } else {
        vstd::arithmetic::div_mod::lemma_div_is_ordered(a, 0, b);
        vstd::arithmetic::div_mod::lemma_div_of0(b);
        lemma_fundamental_div_mod(a, b);
        assert(-m <= a / b) by (nonlinear_arith)
            requires
                a == b * (a / b) + (a % b),
                0 <= a % b < b,
                -m <= a,
                0 < b,
                0 <= m,
        ;
    }
}

/// Floor of the square root of `n`.
pub open spec fn sqrt_floor(n: nat) -> nat
    decreases n,
{
    if n == 0 {
        0
    } else {
        let r = sqrt_floor((n - 1) as nat);
        if (r + 1) * (r + 1) <= n {
            r + 1
        } else {
            r
        }
    }
}

/// `sqrt_floor(n)` is the largest integer whose square does not exceed `n`.
pub proof fn lemma_sqrt_floor_bounds(n: nat)
    ensures
        sqrt_floor(n) * sqrt_floor(n) <= n,
        n < (sqrt_floor(n) + 1) * (sqrt_floor(n) + 1),
    decreases n,
{
    let r = sqrt_floor(n);
    if n > 0 {
        lemma_sqrt_floor_bounds((n - 1) as nat);
        let s = sqrt_floor((n - 1) as nat);
        if (s + 1) * (s + 1) <= n {
            assert(r == s + 1);
            assert(r * r <= n && n < (r + 1) * (r + 1)) by (nonlinear_arith)
                requires
                    r == s + 1,
                    (s + 1) * (s + 1) <= n,
                    n - 1 < (s + 1) * (s + 1),
            ;
        } else {
            assert(r == s);
            assert(r * r <= n && n < (r + 1) * (r + 1)) by (nonlinear_arith)
                requires
                    r == s,
                    s * s <= n - 1,
                    !((s + 1) * (s + 1) <= n),
            ;
        }
    } else {
        assert(r == 0);
        assert(r * r <= n && n < (r + 1) * (r + 1)) by (nonlinear_arith)
            requires
                r == 0,
                n == 0,
        ;
    }
}

/// Any integer squeezed between the same two squares is `sqrt_floor(n)`.
pub proof fn lemma_sqrt_floor_unique(n: nat, r: nat)
    requires
        r * r <= n,
        n < (r + 1) * (r + 1),
    ensures
        r == sqrt_floor(n),
{
    lemma_sqrt_floor_bounds(n);
    let s = sqrt_floor(n);
    assert(r == s) by (nonlinear_arith)
        requires
            r * r <= n < (r + 1) * (r + 1),
            s * s <= n < (s + 1) * (s + 1),
    ;
}

/// Largest integer whose square does not exceed `n`.
pub fn isqrt(n: u64) -> (r: u64)
    ensures
        r == sqrt_floor(n as nat),
        r * r <= n,
        n < (r + 1) * (r + 1),
        r <= 0xFFFF_FFFF,
        1 <= n ==> 1 <= r,
{
    let mut lo: u64 = 0;
    let mut hi: u64 = 0x1_0000_0000;
    while lo + 1 < hi
        invariant
            lo < hi <= 0x1_0000_0000,
            lo * lo <= n,
            n < hi * hi,
        decreases hi - lo,
    {
        let mid: u64 = lo + (hi - lo) / 2;
        proof {
            assert(lo < mid < hi);
            assert(mid * mid < 0x1_0000_0000_0000_0000) by (nonlinear_arith)
                requires
                    mid < 0x1_0000_0000,
            ;
        }
        if mid * mid <= n {
            lo = mid;
        } else {
            hi = mid;
        }
    }
    proof {
        lemma_sqrt_floor_unique(n as nat, lo as nat);
        assert(1 <= n ==> 1 <= lo) by (nonlinear_arith)
            requires
                n < (lo + 1) * (lo + 1),
                0 <= lo,
        ;
    }
    lo
}

/// Horizontal tick count of the unit vector pointing the same way as
/// `(x, y)`.
pub open spec fn norm_x(x: int, y: int) -> int {
    (x * SCALE) / (sqrt_floor((x * x + y * y) as nat) as int)
}

/// Vertical tick count of the unit vector pointing the same way as
/// `(x, y)`.
pub open spec fn norm_y(x: int, y: int) -> int {
    (y * SCALE) / (sqrt_floor((x * x + y * y) as nat) as int)
}

/// Scales `(x, y)` to Euclidean length of one unit (`SCALE` ticks).
pub fn normalize(x: i64, y: i64) -> (r: (i64, i64))
    requires
        -4 * SCALE <= x <= 4 * SCALE,
        -4 * SCALE <= y <= 4 * SCALE,
        !(x == 0 && y == 0),
    ensures
        r.0 == norm_x(x as int, y as int),
        r.1 == norm_y(x as int, y as int),
        -SCALE <= r.0 <= SCALE,
        -SCALE <= r.1 <= SCALE,
        !(r.0 == 0 && r.1 == 0),
{
    proof {
        assert(0 <= x * x <= 0x2_0000_0000_0000 && 0 <= y * y <= 0x2_0000_0000_0000
            && 0 < x * x + y * y) by (nonlinear_arith)
            requires
                -4 * SCALE <= x <= 4 * SCALE,
                -4 * SCALE <= y <= 4 * SCALE,
                !(x == 0 && y == 0),
                SCALE == 65536,
        ;
    }
    let n: u64 = ((x * x) + (y * y)) as u64;
    let len_u: u64 = isqrt(n);
    let len: i64 = len_u as i64;
    proof {
        assert(n == x * x + y * y);
        assert(len == len_u);
        assert(len >= 1);
        assert(-len <= x <= len && -len <= y <= len) by (nonlinear_arith)
            requires
                len_u * len_u <= n,
                n < (len_u + 1) * (len_u + 1),
                n == x * x + y * y,
                len == len_u,
        ;
        assert(len <= 2 * x || len <= -2 * x || len <= 2 * y || len <= -2 * y)
            by (nonlinear_arith)
            requires
                len_u * len_u <= n,
                n == x * x + y * y,
                len == len_u,
                !(x == 0 && y == 0),
        ;
        lemma_norm_component_bounds(x as int, len as int);
        lemma_norm_component_bounds(y as int, len as int);
    }
    let ux: i64 = div_floor(x * SCALE, len);
    let uy: i64 = div_floor(y * SCALE, len);
    proof {
        if len <= 2 * x || len <= -2 * x {
            lemma_norm_component_nonzero(x as int, len as int);
        } else {
            lemma_norm_component_nonzero(y as int, len as int);
        }
    }
    (ux, uy)
}

/// A component no longer than the whole vector scales to at most one unit.
proof fn lemma_norm_component_bounds(x: int, len: int)
    requires
        1 <= len,
        -len <= x <= len,
    ensures
        -SCALE <= (x * SCALE) / len <= SCALE,
{
    assert(x * SCALE <= len * SCALE && -(len * SCALE) <= x * SCALE) by (nonlinear_arith)
        requires
            -len <= x <= len,
            1 <= len,
            SCALE == 65536,
    ;
    vstd::arithmetic::div_mod::lemma_div_is_ordered(x * SCALE, len * SCALE, len);
    vstd::arithmetic::div_mod::lemma_div_is_ordered(-(len * SCALE), x * SCALE, len);
    assert((len * SCALE) / len == SCALE && (-(len * SCALE)) / len == -SCALE) by {
        lemma_mul_quotient(SCALE as int, len);
        lemma_mul_quotient(-(SCALE as int), len);
    }
}

/// The dominant component of a normalized vector cannot vanish.
proof fn lemma_norm_component_nonzero(x: int, len: int)
    requires
        1 <= len,
        len <= 2 * x || len <= -2 * x,
    ensures
        (x * SCALE) / len != 0,
{
    if len <= 2 * x {
        assert(len <= x * SCALE) by (nonlinear_arith)
            requires
                len <= 2 * x,
                1 <= len,
                SCALE == 65536,
        ;
        vstd::arithmetic::div_mod::lemma_div_is_ordered(len as int, x * SCALE, len);
        vstd::arithmetic::div_mod::lemma_div_by_self(len);
    } else {
        assert(x * SCALE <= -len) by (nonlinear_arith)
            requires
                len <= -2 * x,
                1 <= len,
                SCALE == 65536,
        ;
        vstd::arithmetic::div_mod::lemma_div_is_ordered(x * SCALE, -len, len);
        lemma_mul_quotient(-1, len);
    }
}

/// For positive `d`, the quotient of the product `q * d` is exactly `q`.
proof fn lemma_mul_quotient(q: int, d: int)
    requires
        0 < d,
    ensures
        (q * d) / d == q,
{
    lemma_fundamental_div_mod_converse_div(q * d, d, q, 0);
}

} // verus!
