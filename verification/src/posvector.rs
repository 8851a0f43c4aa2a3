//! Three-component vectors over fixed-point scalars.

use vstd::prelude::*;

use crate::fixed::FX_ONE;
use crate::fixed::fx_add;
use crate::fixed::fx_add_spec;
use crate::fixed::fx_div;
use crate::fixed::fx_div_spec;
use crate::fixed::fx_mul;
use crate::fixed::fx_mul_spec;
use crate::fixed::fx_sqrt;
use crate::fixed::fx_sqrt_spec;
use crate::fixed::fx_sub;
use crate::fixed::fx_sub_spec;

verus! {

/// A point or direction in space; each component is a fixed-point scalar.
#[derive(Debug, Clone, Copy, PartialEq, Eq, Structural)]
pub struct PosVector {
    pub x: i64,
    pub y: i64,
    pub z: i64,
}

/// What componentwise addition returns.
pub open spec fn spec_pv_add(a: PosVector, b: PosVector) -> PosVector {
    PosVector {
        x: fx_add_spec(a.x as int, b.x as int) as i64,
        y: fx_add_spec(a.y as int, b.y as int) as i64,
        z: fx_add_spec(a.z as int, b.z as int) as i64,
    }
}

/// What componentwise subtraction returns.
pub open spec fn spec_pv_sub(a: PosVector, b: PosVector) -> PosVector {
    PosVector {
        x: fx_sub_spec(a.x as int, b.x as int) as i64,
        y: fx_sub_spec(a.y as int, b.y as int) as i64,
        z: fx_sub_spec(a.z as int, b.z as int) as i64,
    }
}

/// What the cross product returns:
/// `(ay*bz - az*by, az*bx - ax*bz, ax*by - ay*bx)`.
pub open spec fn spec_pv_cross(a: PosVector, b: PosVector) -> PosVector {
    PosVector {
        x: fx_sub_spec(
            fx_mul_spec(a.y as int, b.z as int),
            fx_mul_spec(a.z as int, b.y as int),
        ) as i64,
        y: fx_sub_spec(
            fx_mul_spec(a.z as int, b.x as int),
            fx_mul_spec(a.x as int, b.z as int),
        ) as i64,
        z: fx_sub_spec(
            fx_mul_spec(a.x as int, b.y as int),
            fx_mul_spec(a.y as int, b.x as int),
        ) as i64,
    }
}

/// What the dot product returns: the sum of the componentwise products.
pub open spec fn spec_pv_dot(a: PosVector, b: PosVector) -> i64 {
    fx_add_spec(
        fx_add_spec(
            fx_mul_spec(a.x as int, b.x as int),
            fx_mul_spec(a.y as int, b.y as int),
        ),
        fx_mul_spec(a.z as int, b.z as int),
    ) as i64
}

/// What scaling by a scalar returns.
pub open spec fn spec_pv_scale(a: PosVector, s: int) -> PosVector {
    PosVector {
        x: fx_mul_spec(a.x as int, s) as i64,
        y: fx_mul_spec(a.y as int, s) as i64,
        z: fx_mul_spec(a.z as int, s) as i64,
    }
}

/// What dividing each component by a scalar returns.
pub open spec fn spec_pv_div(a: PosVector, s: int) -> PosVector {
    PosVector {
        x: fx_div_spec(a.x as int, s) as i64,
        y: fx_div_spec(a.y as int, s) as i64,
        z: fx_div_spec(a.z as int, s) as i64,
    }
}

/// What adding a scaled vector returns: `a + b*s`, componentwise.
pub open spec fn spec_pv_add_scaled(a: PosVector, b: PosVector, s: int) -> PosVector {
    PosVector {
        x: fx_add_spec(a.x as int, fx_mul_spec(s, b.x as int)) as i64,
        y: fx_add_spec(a.y as int, fx_mul_spec(s, b.y as int)) as i64,
        z: fx_add_spec(a.z as int, fx_mul_spec(s, b.z as int)) as i64,
    }
}

/// The squared magnitude: the dot product of the vector with itself.
pub open spec fn spec_pv_magnitude_squared(a: PosVector) -> i64 {
    spec_pv_dot(a, a)
}

/// The magnitude: the fixed-point square root of the squared magnitude.
pub open spec fn spec_pv_magnitude(a: PosVector) -> i64 {
    fx_sqrt_spec(spec_pv_magnitude_squared(a) as int) as i64
}

/// What normalizing returns: the vector divided by its magnitude.  A vector
/// whose magnitude rounds to zero is returned as the zero vector, the
/// documented guard against dividing by zero.
pub open spec fn spec_pv_normalize(a: PosVector) -> PosVector {
    if spec_pv_magnitude(a) == 0 {
        PosVector { x: 0, y: 0, z: 0 }
    } else {
        spec_pv_div(a, spec_pv_magnitude(a) as int)
    }
}

impl PosVector {
    pub fn new(x: i64, y: i64, z: i64) -> (r: PosVector)
        ensures
            r == (PosVector { x, y, z }),
    {
        PosVector { x, y, z }
    }

    /// The zero vector.
    pub fn new_default() -> (r: PosVector)
        ensures
            r == (PosVector { x: 0i64, y: 0i64, z: 0i64 }),
    {
        PosVector { x: 0, y: 0, z: 0 }
    }

    /// The unit vector along the first axis.
    pub fn new_unit_x() -> (r: PosVector)
        ensures
            r == (PosVector { x: FX_ONE, y: 0i64, z: 0i64 }),
    {
        PosVector { x: FX_ONE, y: 0, z: 0 }
    }

    /// The unit vector along the second axis.
    pub fn new_unit_y() -> (r: PosVector)
        ensures
            r == (PosVector { x: 0i64, y: FX_ONE, z: 0i64 }),
    {
        PosVector { x: 0, y: FX_ONE, z: 0 }
    }

    /// The unit vector along the third axis.
    pub fn new_unit_z() -> (r: PosVector)
        ensures
            r == (PosVector { x: 0i64, y: 0i64, z: FX_ONE }),
    {
        PosVector { x: 0, y: 0, z: FX_ONE }
    }

    pub fn subtract(&self, other: PosVector) -> (r: PosVector)
        ensures
            r == spec_pv_sub(*self, other),
    {
        PosVector {
            x: fx_sub(self.x, other.x),
            y: fx_sub(self.y, other.y),
            z: fx_sub(self.z, other.z),
        }
    }

    pub fn cross(&self, other: PosVector) -> (r: PosVector)
        ensures
            r == spec_pv_cross(*self, other),
    {
        PosVector {
            x: fx_sub(fx_mul(self.y, other.z), fx_mul(self.z, other.y)),
            y: fx_sub(fx_mul(self.z, other.x), fx_mul(self.x, other.z)),
            z: fx_sub(fx_mul(self.x, other.y), fx_mul(self.y, other.x)),
        }
    }

    pub fn dot_product(&self, other: PosVector) -> (r: i64)
        ensures
            r == spec_pv_dot(*self, other),
    {
        fx_add(
            fx_add(fx_mul(self.x, other.x), fx_mul(self.y, other.y)),
            fx_mul(self.z, other.z),
        )
    }

    pub fn magnitude(&self) -> (r: i64)
        ensures
            r == spec_pv_magnitude(*self),
            r >= 0,
    {
        fx_sqrt(self.magnitude_squared())
    }

    pub fn magnitude_squared(&self) -> (r: i64)
        ensures
            r == spec_pv_magnitude_squared(*self),
    {
        self.dot_product(*self)
    }

    /// Divide each component by `scalar`, which the caller keeps nonzero.
    pub fn divide_by_scalar(&self, scalar: i64) -> (r: PosVector)
        requires
            scalar != 0,
        ensures
            r == spec_pv_div(*self, scalar as int),
    {
        PosVector {
            x: fx_div(self.x, scalar),
            y: fx_div(self.y, scalar),
            z: fx_div(self.z, scalar),
        }
    }

    pub fn multiply_by_scalar(&self, scalar: i64) -> (r: PosVector)
        ensures
            r == spec_pv_scale(*self, scalar as int),
    {
        PosVector {
            x: fx_mul(self.x, scalar),
            y: fx_mul(self.y, scalar),
            z: fx_mul(self.z, scalar),
        }
    }

    /// `self + other * s`, componentwise.
    pub fn add_scaled(&self, other: PosVector, s: i64) -> (r: PosVector)
        ensures
            r == spec_pv_add_scaled(*self, other, s as int),
    {
        PosVector {
            x: fx_add(self.x, fx_mul(s, other.x)),
            y: fx_add(self.y, fx_mul(s, other.y)),
            z: fx_add(self.z, fx_mul(s, other.z)),
        }
    }

    /// The vector scaled to magnitude one; the zero vector stays zero.
    pub fn normalize(&self) -> (r: PosVector)
        ensures
            r == spec_pv_normalize(*self),
    {
        let m = self.magnitude();
        if m == 0 {
            PosVector { x: 0, y: 0, z: 0 }
        } else {
            self.divide_by_scalar(m)
        }
    }

    pub fn add(&self, other: PosVector) -> (r: PosVector)
        ensures
            r == spec_pv_add(*self, other),
    {
        PosVector {
            x: fx_add(self.x, other.x),
            y: fx_add(self.y, other.y),
            z: fx_add(self.z, other.z),
        }
    }
}

} // verus!

use crate::fixed::div_to_zero;
use crate::fixed::fx_abs;
use crate::fixed::lemma_sqrt_floor_exists;
use crate::fixed::lemma_sqrt_floor_unique;
use crate::fixed::lemma_sqrt_trunc_square;
use crate::fixed::is_sqrt_floor;
use crate::fixed::sqrt_floor;
use vstd::arithmetic::div_mod::lemma_div_is_ordered;
use vstd::arithmetic::div_mod::lemma_div_is_ordered_by_denominator;
use vstd::arithmetic::div_mod::lemma_div_multiples_vanish;
use vstd::arithmetic::div_mod::lemma_fundamental_div_mod;
use vstd::arithmetic::div_mod::lemma_fundamental_div_mod_converse;

verus! {

/// A normalized vector has magnitude one.  Shown exactly for vectors
/// along the first cardinal axis of length at least one; truncation in
/// the square, the root and the division never moves the result off one.
pub proof fn lemma_normalize_unit_magnitude_axis(x: i64)
    requires
        FX_ONE <= x,
        x <= 274877906944i64,
    ensures
        spec_pv_magnitude(spec_pv_normalize(PosVector { x, y: 0, z: 0 })) == FX_ONE,
{
    let v = PosVector { x, y: 0, z: 0 };
    let xi = x as int;

    // the squared magnitude is x*x descaled
    assert(xi * xi >= 0) by (nonlinear_arith)
        requires
            xi >= 0,
    ;
    assert(xi * xi <= 274877906944int * 274877906944int) by (nonlinear_arith)
        requires
            0 <= xi <= 274877906944int,
    ;
    lemma_div_multiples_vanish(1152921504606846976int, 65536int);
    assert(274877906944int * 274877906944int == 65536int * 1152921504606846976int)
        by (nonlinear_arith);
    lemma_div_is_ordered(xi * xi, 274877906944int * 274877906944int, 65536int);
    vstd::arithmetic::div_mod::lemma_div_pos_is_pos(xi * xi, 65536int);
    let a = (xi * xi) / 65536int;
    assert(a <= 1152921504606846976int);
    assert(fx_mul_spec(xi, xi) == a);
    assert(fx_mul_spec(0, 0) == 0);
    assert(spec_pv_magnitude_squared(v) as int == a);

    // a is at least the scale itself
    lemma_div_multiples_vanish(65536int, 65536int);
    assert(xi * xi >= 65536int * 65536int) by (nonlinear_arith)
        requires
            xi >= 65536,
    ;
    lemma_div_is_ordered(65536int * 65536int, xi * xi, 65536int);
    assert(a >= 65536);

    // the magnitude is within one of x
    lemma_sqrt_trunc_square(xi);
    let m = spec_pv_magnitude(v) as int;
    assert(m == sqrt_floor(a * 65536int));
    assert(xi - 1 <= m <= xi);
    assert(m > 0);

    // dividing x by its magnitude lands on one or one plus a quantum
    let xs = xi * 65536int;
    assert(xi * 65536int >= 0) by (nonlinear_arith)
        requires
            xi >= 0,
    ;
    let q = xs / m;
    assert(fx_abs(xs) == xs && fx_abs(m) == m);
    assert(div_to_zero(xs, m) == q);
    lemma_div_is_ordered_by_denominator(xs, m, xi);
    lemma_div_multiples_vanish(65536int, xi);
    assert(xi * 65536int == xi * 65536int);
    assert(xs / xi == 65536int);
    assert(q >= 65536);
    assert(xs < (65536int + 2) * m) by (nonlinear_arith)
        requires
            m >= xi - 1,
            xi >= 65536,
            xs == xi * 65536int,
    ;
    lemma_fundamental_div_mod(xs, m);
    assert(q < 65536int + 2) by (nonlinear_arith)
        requires
            xs == m * q + xs % m,
            0 <= xs % m < m,
            xs < (65536int + 2) * m,
            m > 0,
    ;
    assert(65536 <= q <= 65537);
    let vn = spec_pv_normalize(v);
    assert(fx_div_spec(xi, m) == q);
    assert(fx_div_spec(0, m) == 0);
    assert(vn == (PosVector { x: q as i64, y: 0i64, z: 0i64 }));

    // the squared magnitude of the result, and its root, land on one
    let a2 = spec_pv_magnitude_squared(vn) as int;
    assert(q * q >= 0) by (nonlinear_arith)
        requires
            q >= 0,
    ;
    assert(a2 == (q * q) / 65536int);
    if q == 65536 {
        lemma_div_multiples_vanish(65536int, 65536int);
        assert(q * q == 65536int * 65536int) by (nonlinear_arith)
            requires
                q == 65536,
        ;
        assert(a2 == 65536);
        assert(is_sqrt_floor(65536int * 65536int, 65536int)) by (nonlinear_arith);
        lemma_sqrt_floor_unique(65536int * 65536int, 65536int);
        assert(spec_pv_magnitude(vn) as int == sqrt_floor(a2 * 65536int));
        assert(a2 * 65536int == 65536int * 65536int) by (nonlinear_arith)
            requires
                a2 == 65536,
        ;
        assert(spec_pv_magnitude(vn) as int == 65536);
    } else {
        assert(q == 65537);
        assert(q * q == 65536int * 65538int + 1) by (nonlinear_arith)
            requires
                q == 65537,
        ;
        lemma_fundamental_div_mod_converse(q * q, 65536int, 65538int, 1int);
        assert(a2 == 65538);
        assert(a2 * 65536int == 65538int * 65536int) by (nonlinear_arith)
            requires
                a2 == 65538,
        ;
        assert(is_sqrt_floor(65538int * 65536int, 65536int)) by (nonlinear_arith);
        lemma_sqrt_floor_unique(65538int * 65536int, 65536int);
        assert(spec_pv_magnitude(vn) as int == sqrt_floor(a2 * 65536int));
        assert(spec_pv_magnitude(vn) as int == 65536);
    }
}

} // verus!

verus! {

/// How one component behaves under division by the magnitude: the
/// descaled quotient squares to within tight bounds of the exact ratio.
proof fn lemma_comp_div_sq(c: int, m: int)
    requires
        1 <= m,
        fx_abs(c) <= 274877906944,
    ensures
        ({
            let u = fx_abs(c) * 65536 / m;
            &&& u >= 0
            &&& div_to_zero(c * 65536, m) == if c >= 0 {
                u
            } else {
                -u
            }
            &&& u * m <= fx_abs(c) * 65536
            &&& u * m >= fx_abs(c) * 65536 - m + 1
            &&& u * u * (m * m) <= c * c * (65536 * 65536)
            &&& u * u * (m * m) >= c * c * (65536 * 65536) - 2 * (65536 * m) * fx_abs(c)
        }),
{
    let a = fx_abs(c);
    assert(fx_abs(c) * fx_abs(c) == c * c) by (nonlinear_arith);
    let x = a * 65536;
    assert(a * 65536 >= 0) by (nonlinear_arith)
        requires
            a >= 0,
    ;
    let u = x / m;
    lemma_fundamental_div_mod(x, m);
    assert(x == m * u + x % m);
    assert(0 <= x % m < m);
    assert(u >= 0) by (nonlinear_arith)
        requires
            m * u == x - x % m,
            x % m < m,
            x >= 0,
            m >= 1,
    ;
    assert(u * m <= x && u * m >= x - m + 1) by (nonlinear_arith)
        requires
            x == m * u + x % m,
            0 <= x % m < m,
    ;

    // the sign of the scaled component carries through the division
    assert(fx_abs(c * 65536) == a * 65536) by (nonlinear_arith)
        requires
            a == fx_abs(c),
    ;
    assert(div_to_zero(c * 65536, m) == if c >= 0 {
        u
    } else {
        -u
    }) by {
        if c >= 0 {
            assert(c * 65536 >= 0) by (nonlinear_arith)
                requires
                    c >= 0,
            ;
        } else {
            assert(c * 65536 < 0) by (nonlinear_arith)
                requires
                    c < 0,
            ;
        }
    }

    // squaring the two-sided bound on u * m
    assert(u * u * (m * m) <= c * c * (65536 * 65536)) by (nonlinear_arith)
        requires
            0 <= u * m,
            u * m <= fx_abs(c) * 65536,
            fx_abs(c) * fx_abs(c) == c * c,
    ;
    assert(u * u * (m * m) >= c * c * (65536 * 65536) - 2 * (65536 * m) * fx_abs(c)) by {
        let xx = a * 65536;
        if xx <= m {
            assert(u * u * (m * m) >= 0) by (nonlinear_arith);
            assert(c * c * (65536 * 65536) - 2 * (65536 * m) * fx_abs(c) <= 0) by (
            nonlinear_arith)
                requires
                    fx_abs(c) * fx_abs(c) == c * c,
                    fx_abs(c) * 65536 <= m,
                    fx_abs(c) >= 0,
                    m >= 1,
            ;
        } else {
            assert(u * m >= xx - m + 1 && xx - m + 1 > 0);
            assert(u * u * (m * m) >= (xx - m) * (xx - m)) by (nonlinear_arith)
                requires
                    u * m >= xx - m + 1,
                    xx - m + 1 > 0,
            ;
            assert((xx - m) * (xx - m) >= xx * xx - 2 * m * xx) by (nonlinear_arith);
            assert(xx * xx == c * c * (65536 * 65536)) by (nonlinear_arith)
                requires
                    xx == fx_abs(c) * 65536,
                    fx_abs(c) * fx_abs(c) == c * c,
            ;
            assert(2 * m * xx == 2 * (65536 * m) * fx_abs(c)) by (nonlinear_arith)
                requires
                    xx == fx_abs(c) * 65536,
            ;
        }
    }
}

} // verus!

verus! {

/// One component squared and descaled, with its truncation bounds.
proof fn lemma_comp_sq(c: int)
    requires
        fx_abs(c) <= 274877906944,
    ensures
        c * c >= 0,
        fx_mul_spec(c, c) == (c * c) / 65536,
        (c * c) / 65536 >= 0,
        (c * c) / 65536 <= 1152921504606846976,
        65536 * ((c * c) / 65536) <= c * c,
        c * c < 65536 * ((c * c) / 65536) + 65536,
{
    assert(c * c >= 0 && fx_abs(c) * fx_abs(c) == c * c) by (nonlinear_arith);
    assert(c * c <= 274877906944int * 274877906944int) by (nonlinear_arith)
        requires
            fx_abs(c) <= 274877906944int,
            fx_abs(c) * fx_abs(c) == c * c,
    ;
    lemma_div_multiples_vanish(1152921504606846976int, 65536int);
    assert(274877906944int * 274877906944int == 65536int * 1152921504606846976int)
        by (nonlinear_arith);
    lemma_div_is_ordered(c * c, 274877906944int * 274877906944int, 65536int);
    vstd::arithmetic::div_mod::lemma_div_pos_is_pos(c * c, 65536int);
    lemma_fundamental_div_mod(c * c, 65536int);
    assert(div_to_zero(c * c, 65536int) == (c * c) / 65536);
}

/// A normalized vector has magnitude one, within a few quanta: for any
/// vector of magnitude at least one whose components stay well inside
/// the scalar range, the magnitude of `normalize(v)` lies within six
/// quanta below and two above one.  Vectors shorter than one unit fall
/// outside: their quotients carry proportionally larger truncation.
pub proof fn lemma_normalize_magnitude_near_one(v: PosVector)
    requires
        fx_abs(v.x as int) <= 274877906944,
        fx_abs(v.y as int) <= 274877906944,
        fx_abs(v.z as int) <= 274877906944,
        spec_pv_magnitude(v) >= FX_ONE,
    ensures
        FX_ONE - 6 <= spec_pv_magnitude(spec_pv_normalize(v)),
        spec_pv_magnitude(spec_pv_normalize(v)) <= FX_ONE + 2,
{
    let xi = v.x as int;
    let yi = v.y as int;
    let zi = v.z as int;

    // the squared magnitude: the three squares, each descaled
    lemma_comp_sq(xi);
    lemma_comp_sq(yi);
    lemma_comp_sq(zi);
    let tx = (xi * xi) / 65536;
    let ty = (yi * yi) / 65536;
    let tz = (zi * zi) / 65536;
    let msq = tx + ty + tz;
    assert(spec_pv_magnitude_squared(v) as int == msq);
    let sum = xi * xi + yi * yi + zi * zi;
    assert(msq * 65536 == 65536 * tx + 65536 * ty + 65536 * tz) by (nonlinear_arith)
        requires
            msq == tx + ty + tz,
    ;
    assert(msq * 65536 <= sum);
    assert(sum < msq * 65536 + 3 * 65536);

    // the magnitude and its square-root bounds
    assert(msq >= 0);
    lemma_sqrt_floor_exists(msq * 65536);
    let m = sqrt_floor(msq * 65536);
    assert(is_sqrt_floor(msq * 65536, m));
    assert(m * m <= msq * 65536);
    assert(msq * 65536 < (m + 1) * (m + 1));
    assert(msq > 0 && spec_pv_magnitude(v) as int == m) by {
        if msq == 0 {
            assert(is_sqrt_floor(0, 0));
            lemma_sqrt_floor_unique(0, 0);
            assert(fx_sqrt_spec(0) == 0);
            assert(spec_pv_magnitude(v) == 0);
        }
        assert(m >= 0);
        assert(m * m < 549755813888int * 549755813888int) by (nonlinear_arith)
            requires
                m * m <= msq * 65536,
                msq <= 3 * 1152921504606846976int,
        ;
        assert(m < 549755813888int) by (nonlinear_arith)
            requires
                m >= 0,
                m * m < 549755813888int * 549755813888int,
        ;
    }
    assert(m >= 65536);
    assert(m * m > 0) by (nonlinear_arith)
        requires
            m >= 1,
    ;

    // every component is within two of the magnitude
    assert(sum < (m + 1) * (m + 1) + 3 * 65536);
    assert((m + 3) * (m + 3) > sum) by (nonlinear_arith)
        requires
            sum < (m + 1) * (m + 1) + 3 * 65536,
            m >= 65536,
    ;
    assert(fx_abs(xi) <= m + 2 && fx_abs(yi) <= m + 2 && fx_abs(zi) <= m + 2) by (
    nonlinear_arith)
        requires
            xi * xi <= sum,
            yi * yi <= sum,
            zi * zi <= sum,
            sum < (m + 3) * (m + 3),
            m >= 0,
    ;

    // dividing each component by the magnitude
    lemma_comp_div_sq(xi, m);
    lemma_comp_div_sq(yi, m);
    lemma_comp_div_sq(zi, m);
    let ux = fx_abs(xi) * 65536 / m;
    let uy = fx_abs(yi) * 65536 / m;
    let uz = fx_abs(zi) * 65536 / m;

    // quotients keep the component scale: dividing by at least the
    // scale cannot grow a component
    lemma_div_is_ordered_by_denominator(fx_abs(xi) * 65536, 65536, m);
    lemma_div_is_ordered_by_denominator(fx_abs(yi) * 65536, 65536, m);
    lemma_div_is_ordered_by_denominator(fx_abs(zi) * 65536, 65536, m);
    lemma_div_multiples_vanish(fx_abs(xi), 65536int);
    lemma_div_multiples_vanish(fx_abs(yi), 65536int);
    lemma_div_multiples_vanish(fx_abs(zi), 65536int);
    assert(fx_abs(xi) * 65536 == 65536 * fx_abs(xi)) by (nonlinear_arith);
    assert(fx_abs(yi) * 65536 == 65536 * fx_abs(yi)) by (nonlinear_arith);
    assert(fx_abs(zi) * 65536 == 65536 * fx_abs(zi)) by (nonlinear_arith);
    assert(ux <= fx_abs(xi) && uy <= fx_abs(yi) && uz <= fx_abs(zi));

    let nx = if xi >= 0 {
        ux
    } else {
        -ux
    };
    let ny = if yi >= 0 {
        uy
    } else {
        -uy
    };
    let nz = if zi >= 0 {
        uz
    } else {
        -uz
    };
    assert(fx_div_spec(xi, m) == nx && fx_div_spec(yi, m) == ny && fx_div_spec(zi, m) == nz);
    let vn = spec_pv_normalize(v);
    assert(vn == (PosVector { x: nx as i64, y: ny as i64, z: nz as i64 }));

    // the squared magnitude of the quotient vector
    assert(fx_abs(nx) == ux && fx_abs(ny) == uy && fx_abs(nz) == uz);
    lemma_comp_sq(nx);
    lemma_comp_sq(ny);
    lemma_comp_sq(nz);
    assert(nx * nx == ux * ux && ny * ny == uy * uy && nz * nz == uz * uz) by (
    nonlinear_arith)
        requires
            nx == ux || nx == -ux,
            ny == uy || ny == -uy,
            nz == uz || nz == -uz,
    ;
    let tnx = (nx * nx) / 65536;
    let tny = (ny * ny) / 65536;
    let tnz = (nz * nz) / 65536;
    let msq2 = tnx + tny + tnz;
    assert(vn.x as int == nx && vn.y as int == ny && vn.z as int == nz);
    assert(spec_pv_magnitude_squared(vn) as int == msq2);
    let sum2 = nx * nx + ny * ny + nz * nz;
    assert(msq2 * 65536 == 65536 * tnx + 65536 * tny + 65536 * tnz) by (nonlinear_arith)
        requires
            msq2 == tnx + tny + tnz,
    ;
    assert(msq2 * 65536 <= sum2);
    assert(sum2 < msq2 * 65536 + 3 * 65536);

    // upper bound: the quotient squares cannot exceed the exact ratio
    assert(sum2 * (m * m) == ux * ux * (m * m) + uy * uy * (m * m) + uz * uz * (m * m)) by (
    nonlinear_arith)
        requires
            sum2 == ux * ux + uy * uy + uz * uz,
    ;
    assert(sum * (65536 * 65536) == xi * xi * (65536 * 65536) + yi * yi * (65536 * 65536) + zi
        * zi * (65536 * 65536)) by (nonlinear_arith)
        requires
            sum == xi * xi + yi * yi + zi * zi,
    ;
    assert(sum2 * (m * m) <= sum * (65536 * 65536));
    assert(sum * (65536 * 65536) < ((m + 1) * (m + 1) + 3 * 65536) * (65536 * 65536)) by (
    nonlinear_arith)
        requires
            sum < (m + 1) * (m + 1) + 3 * 65536,
    ;
    assert(msq2 * 65536 * (m * m) <= sum2 * (m * m)) by (nonlinear_arith)
        requires
            msq2 * 65536 <= sum2,
            m * m >= 0,
    ;
    assert(((m + 1) * (m + 1) + 3 * 65536) * (65536 * 65536) <= (65536 + 6) * 65536 * (m * m))
        by (nonlinear_arith)
        requires
            m >= 65536,
    ;
    assert(msq2 * 65536 * (m * m) < (65536 + 6) * 65536 * (m * m));
    assert(msq2 < 65536 + 6) by (nonlinear_arith)
        requires
            msq2 * 65536 * (m * m) < (65536 + 6) * 65536 * (m * m),
            m * m > 0,
    ;
    assert(msq2 <= 65536 + 5);

    // lower bound: the quotient squares lose at most the cross terms
    assert(sum2 * (m * m) >= sum * (65536 * 65536) - 2 * (65536 * m) * (fx_abs(xi) + fx_abs(yi)
        + fx_abs(zi))) by (nonlinear_arith)
        requires
            sum2 * (m * m) == ux * ux * (m * m) + uy * uy * (m * m) + uz * uz * (m * m),
            sum * (65536 * 65536) == xi * xi * (65536 * 65536) + yi * yi * (65536 * 65536) + zi
                * zi * (65536 * 65536),
            ux * ux * (m * m) >= xi * xi * (65536 * 65536) - 2 * (65536 * m) * fx_abs(xi),
            uy * uy * (m * m) >= yi * yi * (65536 * 65536) - 2 * (65536 * m) * fx_abs(yi),
            uz * uz * (m * m) >= zi * zi * (65536 * 65536) - 2 * (65536 * m) * fx_abs(zi),
    ;
    assert(sum * (65536 * 65536) >= m * m * (65536 * 65536)) by (nonlinear_arith)
        requires
            sum >= m * m,
    ;
    assert(2 * (65536 * m) * (fx_abs(xi) + fx_abs(yi) + fx_abs(zi)) <= 2 * (65536 * m) * (3 * m
        + 6)) by (nonlinear_arith)
        requires
            fx_abs(xi) <= m + 2,
            fx_abs(yi) <= m + 2,
            fx_abs(zi) <= m + 2,
            fx_abs(xi) >= 0,
            fx_abs(yi) >= 0,
            fx_abs(zi) >= 0,
            m >= 1,
    ;
    assert(msq2 * 65536 * (m * m) > sum2 * (m * m) - 3 * 65536 * (m * m)) by (nonlinear_arith)
        requires
            sum2 < msq2 * 65536 + 3 * 65536,
            m * m > 0,
    ;
    assert(msq2 * 65536 * (m * m) > m * m * (65536 * 65536) - 2 * (65536 * m) * (3 * m + 6) - 3
        * 65536 * (m * m));
    assert(msq2 >= 65536 - 10) by (nonlinear_arith)
        requires
            msq2 * 65536 * (m * m) > m * m * (65536 * 65536) - 2 * (65536 * m) * (3 * m + 6) - 3
                * 65536 * (m * m),
            m >= 65536,
    ;

    // the root of the near-unit square lands within six quanta of one
    assert(msq2 > 0);
    lemma_sqrt_floor_exists(msq2 * 65536);
    let s2 = sqrt_floor(msq2 * 65536);
    assert(is_sqrt_floor(msq2 * 65536, s2));
    assert(spec_pv_magnitude(vn) as int == s2) by {
        assert(s2 * s2 <= msq2 * 65536 <= (65536int + 5) * 65536);
        assert(s2 <= 65600) by (nonlinear_arith)
            requires
                s2 >= 0,
                s2 * s2 <= (65536int + 5) * 65536,
        ;
    }
    assert(s2 <= 65536 + 2) by (nonlinear_arith)
        requires
            s2 >= 0,
            s2 * s2 <= msq2 * 65536,
            msq2 <= 65536 + 5,
    ;
    assert(s2 >= 65536 - 6) by (nonlinear_arith)
        requires
            msq2 * 65536 < (s2 + 1) * (s2 + 1),
            msq2 >= 65536 - 10,
            s2 >= 0,
    ;
}

} // verus!
