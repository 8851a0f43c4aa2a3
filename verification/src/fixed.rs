//! Fixed-point scalar arithmetic.
//!
//! A scalar is an `i64` holding a real value scaled by `FX_ONE` (2^16).
//! Every operation saturates at the `i64` range and rounds toward zero,
//! and each has an exact contract over mathematical integers.

use vstd::prelude::*;

verus! {

/// Number of fixed-point units that stand for the real value one.
pub const FX_ONE: i64 = 65536;

/// Half of `FX_ONE`: the real value one half.
pub const FX_HALF: i64 = 32768;

/// Twice `FX_ONE`: the real value two.
pub const FX_TWO: i64 = 131072;

/// Distance reported by an intersection that missed: larger than any hit.
pub const FX_NO_HIT: i64 = 9223372036854775807;

/// The absolute value of an integer.
pub open spec fn fx_abs(x: int) -> int {
    if x < 0 {
        -x
    } else {
        x
    }
}

/// Clamp a mathematical integer into the `i64` range.
pub open spec fn sat64(x: int) -> int {
    if x > i64::MAX as int {
        i64::MAX as int
    } else if x < i64::MIN as int {
        i64::MIN as int
    } else {
        x
    }
}

/// Division rounding toward zero, as Rust's `/` does; zero for a zero divisor.
pub open spec fn div_to_zero(p: int, q: int) -> int {
    if q == 0 {
        0
    } else if (p < 0) == (q < 0) {
        fx_abs(p) / fx_abs(q)
    } else {
        -(fx_abs(p) / fx_abs(q))
    }
}

/// What addition of two scalars returns: the exact sum, saturated.
pub open spec fn fx_add_spec(a: int, b: int) -> int {
    sat64(a + b)
}

/// What subtraction of two scalars returns: the exact difference, saturated.
pub open spec fn fx_sub_spec(a: int, b: int) -> int {
    sat64(a - b)
}

/// What the product of two scalars is: `a * b` descaled toward zero, saturated.
pub open spec fn fx_mul_spec(a: int, b: int) -> int {
    sat64(div_to_zero(a * b, FX_ONE as int))
}

/// What the quotient of two scalars is: `a / b` rescaled, rounded toward
/// zero, saturated; zero when the divisor is zero.
pub open spec fn fx_div_spec(a: int, b: int) -> int {
    if b == 0 {
        0
    } else {
        sat64(div_to_zero(a * (FX_ONE as int), b))
    }
}

/// `r` is the integer square root of `n`: the largest integer whose square
/// does not exceed `n`.
pub open spec fn is_sqrt_floor(n: int, r: int) -> bool {
    0 <= r && r * r <= n && n < (r + 1) * (r + 1)
}

/// The integer square root of a nonnegative integer.
pub open spec fn sqrt_floor(n: int) -> int {
    choose|r: int| is_sqrt_floor(n, r)
}

/// What the square root of a scalar is: the square root of the value under
/// the scale, re-scaled and rounded down; zero for a nonpositive argument.
pub open spec fn fx_sqrt_spec(x: int) -> int {
    if x <= 0 {
        0
    } else {
        sqrt_floor(x * (FX_ONE as int))
    }
}

/// An integer square root exists for every nonnegative integer.
pub proof fn lemma_sqrt_floor_exists(n: int)
    requires
        n >= 0,
    ensures
        is_sqrt_floor(n, sqrt_floor(n)),
    decreases n,
{
    if n == 0 {
        assert(is_sqrt_floor(0, 0));
    } else {
        lemma_sqrt_floor_exists(n - 1);
        let r = sqrt_floor(n - 1);
        if (r + 1) * (r + 1) == n {
            assert(is_sqrt_floor(n, r + 1)) by (nonlinear_arith)
                requires
                    r >= 0 && (r + 1) * (r + 1) == n,
            ;
        } else {
            assert(is_sqrt_floor(n, r));
        }
    }
}

/// The integer square root is unique.
pub proof fn lemma_sqrt_floor_unique(n: int, r: int)
    requires
        is_sqrt_floor(n, r),
    ensures
        r == sqrt_floor(n),
{
    let s = sqrt_floor(n);
    assert(is_sqrt_floor(n, s));
    assert(r == s) by (nonlinear_arith)
        requires
            is_sqrt_floor(n, r) && is_sqrt_floor(n, s),
    ;
}

/// Saturating fixed-point addition.
pub fn fx_add(a: i64, b: i64) -> (r: i64)
    ensures
        r as int == fx_add_spec(a as int, b as int),
{
    if b >= 0 {
        if a > i64::MAX - b {
            i64::MAX
        } else {
            a + b
        }
    } else {
        if a < i64::MIN - b {
            i64::MIN
        } else {
            a + b
        }
    }
}

/// Saturating fixed-point subtraction.
pub fn fx_sub(a: i64, b: i64) -> (r: i64)
    ensures
        r as int == fx_sub_spec(a as int, b as int),
{
    if b >= 0 {
        if a < i64::MIN + b {
            i64::MIN
        } else {
            a - b
        }
    } else {
        if a > i64::MAX + b {
            i64::MAX
        } else {
            a - b
        }
    }
}

/// Negation, saturated (the minimum value negates to the maximum).
pub fn fx_neg(a: i64) -> (r: i64)
    ensures
        r as int == sat64(-(a as int)),
{
    if a == i64::MIN {
        i64::MAX
    } else {
        -a
    }
}

/// The magnitude of an `i64` as a `u128`.
fn abs_u128(a: i64) -> (m: u128)
    ensures
        m as int == fx_abs(a as int),
{
    if a >= 0 {
        a as u128
    } else {
        (-(a as i128)) as u128
    }
}

/// A nonnegative magnitude, made into an `i64` with saturation.
fn clamp_pos(q: u128) -> (r: i64)
    ensures
        r as int == sat64(q as int),
{
    if q > i64::MAX as u128 {
        i64::MAX
    } else {
        q as i64
    }
}

/// A negated magnitude, made into an `i64` with saturation.
fn clamp_neg(q: u128) -> (r: i64)
    ensures
        r as int == sat64(-(q as int)),
{
    if q >= 9223372036854775808u128 {
        i64::MIN
    } else {
        -(q as i64)
    }
}

/// The product of the magnitudes of `a` and `b` is the magnitude of their
/// product, and the sign of the product follows the signs of the factors.
proof fn lemma_abs_mul(a: int, b: int)
    ensures
        fx_abs(a) * fx_abs(b) == fx_abs(a * b),
        ((a < 0) != (b < 0) && a * b != 0) ==> a * b < 0,
        ((a < 0) == (b < 0)) ==> a * b >= 0,
    decreases 0int,
{
    assert(fx_abs(a) * fx_abs(b) == fx_abs(a * b) && (((a < 0) != (b < 0) && a * b != 0) ==> a * b
        < 0) && (((a < 0) == (b < 0)) ==> a * b >= 0)) by (nonlinear_arith);
}

/// Saturating fixed-point multiplication, rounding toward zero.
pub fn fx_mul(a: i64, b: i64) -> (r: i64)
    ensures
        r as int == fx_mul_spec(a as int, b as int),
{
    let ma = abs_u128(a);
    let mb = abs_u128(b);
    proof {
        lemma_abs_mul(a as int, b as int);
        assert(ma * mb <= 0x8000000000000000u128 * 0x8000000000000000u128) by (nonlinear_arith)
            requires
                ma <= 0x8000000000000000u128 && mb <= 0x8000000000000000u128,
        ;
    }
    let p = ma * mb;
    let q = p / (FX_ONE as u128);
    if (a < 0) != (b < 0) {
        clamp_neg(q)
    } else {
        clamp_pos(q)
    }
}

/// Saturating fixed-point division, rounding toward zero.
///
/// The divisor must be nonzero; every caller guards for that, following the
/// policy that degenerate denominators are rejected before dividing.
pub fn fx_div(a: i64, b: i64) -> (r: i64)
    requires
        b != 0,
    ensures
        r as int == fx_div_spec(a as int, b as int),
{
    let ma = abs_u128(a);
    let mb = abs_u128(b);
    proof {
        lemma_abs_mul(a as int, FX_ONE as int);
        assert(ma * (FX_ONE as u128) <= 0x8000000000000000u128 * 0x10000u128) by (nonlinear_arith)
            requires
                ma <= 0x8000000000000000u128,
        ;
        assert(fx_abs((a as int) * (FX_ONE as int)) == fx_abs(a as int) * (FX_ONE as int));
        assert(((a as int) * (FX_ONE as int) < 0) == (a < 0 && a as int * (FX_ONE as int) != 0));
    }
    let p = ma * (FX_ONE as u128);
    let q = p / mb;
    if (a < 0) != (b < 0) {
        clamp_neg(q)
    } else {
        clamp_pos(q)
    }
}

/// The integer square root of a `u128` below 2^80, by bisection.
fn isqrt_u128(n: u128) -> (r: u128)
    requires
        n < 0x100000000000000000000u128,
    ensures
        is_sqrt_floor(n as int, r as int),
{
    let mut lo: u128 = 0;
    let mut hi: u128 = 0x10000000000u128;
    proof {
        assert((0x10000000000u128 as int) * (0x10000000000u128 as int)
            == 0x100000000000000000000int) by (nonlinear_arith);
    }
    while hi - lo > 1
        invariant
            lo < hi <= 0x10000000000u128,
            (lo as int) * (lo as int) <= n as int,
            (n as int) < (hi as int) * (hi as int),
        decreases hi - lo,
    {
        let mid = lo + (hi - lo) / 2;
        proof {
            assert((mid as int) * (mid as int) <= (0x10000000000u128 as int) * (
            0x10000000000u128 as int)) by (nonlinear_arith)
                requires
                    0 <= mid as int <= 0x10000000000u128 as int,
            ;
        }
        if mid * mid <= n {
            lo = mid;
        } else {
            hi = mid;
        }
    }
    lo
}

/// Fixed-point square root, rounding down; zero for a nonpositive argument.
pub fn fx_sqrt(x: i64) -> (r: i64)
    ensures
        r as int == fx_sqrt_spec(x as int),
        r >= 0,
{
    if x <= 0 {
        0
    } else {
        let n = (x as u128) * (FX_ONE as u128);
        proof {
            assert((x as u128 as int) * (FX_ONE as int) < 0x100000000000000000000int)
                by (nonlinear_arith)
                requires
                    0 <= (x as u128 as int) && (x as u128 as int) < 0x8000000000000000int,
            ;
        }
        let r = isqrt_u128(n);
        proof {
            lemma_sqrt_floor_unique(n as int, r as int);
            assert((r as int) * (r as int) <= n as int && (n as int)
                < 0x100000000000000000000int);
            assert(r as int <= 0x10000000000int) by (nonlinear_arith)
                requires
                    0 <= r as int && (r as int) * (r as int) < 0x100000000000000000000int,
            ;
        }
        r as i64
    }
}

/// The remainder of division rounding toward zero, as Rust's `%` does:
/// the sign follows the dividend.  The dividend is returned unchanged for
/// a zero divisor.
pub open spec fn rem_to_zero(p: int, q: int) -> int {
    if q == 0 {
        p
    } else if p >= 0 {
        p % fx_abs(q)
    } else {
        -((-p) % fx_abs(q))
    }
}

/// Truncating remainder; the dividend comes back unchanged when the
/// divisor is zero, the guard against a degenerate tiling scale.
pub fn fx_rem(a: i64, b: i64) -> (r: i64)
    ensures
        r as int == rem_to_zero(a as int, b as int),
{
    if b == 0 {
        a
    } else {
        let ma = abs_u128(a);
        let mb = abs_u128(b);
        let m = ma % mb;
        if a >= 0 {
            m as i64
        } else {
            -(m as i64)
        }
    }
}

/// Half of a scalar, rounded toward zero.
pub fn fx_half_of(a: i64) -> (r: i64)
    ensures
        r as int == div_to_zero(a as int, 2),
{
    if a >= 0 {
        ((a as u64) / 2) as i64
    } else {
        -((((-(a as i128)) as u64) / 2) as i64)
    }
}

/// The smaller of two scalars.
pub fn fx_min(a: i64, b: i64) -> (r: i64)
    ensures
        r == if a < b {
            a
        } else {
            b
        },
{
    if a < b {
        a
    } else {
        b
    }
}

/// The larger of two scalars.
pub fn fx_max(a: i64, b: i64) -> (r: i64)
    ensures
        r == if a > b {
            a
        } else {
            b
        },
{
    if a > b {
        a
    } else {
        b
    }
}

} // verus!

verus! {

/// The square root of a squared scalar, descaled and rescaled, loses at
/// most one unit: for `r` of at least half a unit, the root of
/// `(r*r / FX_ONE) * FX_ONE` is `r` or `r - 1`.
pub proof fn lemma_sqrt_trunc_square(r: int)
    requires
        32769 <= r,
        r <= 274877906944,
    ensures
        r - 1 <= sqrt_floor(((r * r) / (FX_ONE as int)) * (FX_ONE as int)),
        sqrt_floor(((r * r) / (FX_ONE as int)) * (FX_ONE as int)) <= r,
{
    let rr = r * r;
    assert(r * r >= 0) by (nonlinear_arith)
        requires
            r >= 0,
    ;
    let b = rr / 65536;
    vstd::arithmetic::div_mod::lemma_fundamental_div_mod(rr, 65536);
    assert(rr == 65536 * b + rr % 65536);
    assert(0 <= rr % 65536 < 65536);
    let bs = b * 65536;
    assert(b * 65536 == 65536 * b) by (nonlinear_arith);
    assert(rr - 65536 < bs <= rr);
    lemma_sqrt_floor_exists(bs);
    let s = sqrt_floor(bs);
    assert(is_sqrt_floor(bs, s));
    assert(s <= r) by (nonlinear_arith)
        requires
            s * s <= bs,
            bs <= r * r,
            s >= 0,
            r >= 0,
    ;
    assert((r - 1) * (r - 1) < bs) by (nonlinear_arith)
        requires
            bs > r * r - 65536,
            r >= 32769,
    ;
    assert(s >= r - 1) by (nonlinear_arith)
        requires
            bs < (s + 1) * (s + 1),
            (r - 1) * (r - 1) < bs,
            s >= 0,
            r >= 32769,
    ;
}

} // verus!
