//! Surface appearance: a solid color, or a procedural checkerboard tiling.

use vstd::prelude::*;

use crate::color::ColorVector;
use crate::fixed::div_to_zero;
use crate::fixed::fx_add;
use crate::fixed::fx_add_spec;
use crate::fixed::fx_half_of;
use crate::fixed::fx_mul;
use crate::fixed::fx_mul_spec;
use crate::fixed::fx_neg;
use crate::fixed::fx_rem;
use crate::fixed::fx_sub;
use crate::fixed::fx_sub_spec;
use crate::fixed::rem_to_zero;
use crate::fixed::sat64;

verus! {

/// The numeric capabilities every material carries.
#[derive(Debug, Clone, Copy, PartialEq, Eq, Structural)]
pub struct BaseMaterial {
    pub gloss: i64,
    pub reflection: i64,
    pub refraction: i64,
    pub transparency: i64,
}

/// A material of one constant color.
#[derive(Debug, Clone, Copy, PartialEq, Eq, Structural)]
pub struct SolidMaterial {
    pub material: BaseMaterial,
    pub color: ColorVector,
}

/// A material of two colors alternating over a scaled tiling of the
/// surface coordinates.
#[derive(Debug, Clone, Copy, PartialEq, Eq, Structural)]
pub struct ChessboardMaterial {
    pub material: BaseMaterial,
    pub color_even: ColorVector,
    pub color_odd: ColorVector,
    pub scale: i64,
}

/// A coordinate wrapped into one period of the tiling: the remainder by
/// `scale`, shifted into the half-open interval centered on zero.  For
/// an odd scale the truncated half-period can leave a boundary value one
/// quantum outside that interval (see `lemma_wrap_up_scale_period`).
pub open spec fn spec_wrap_up_scale(t: int, scale: int) -> int {
    let half = div_to_zero(scale, 2);
    let x0 = rem_to_zero(t, scale);
    let x1 = if x0 < -half {
        sat64(x0 + scale)
    } else {
        x0
    };
    if x1 >= half {
        sat64(x1 - scale)
    } else {
        x1
    }
}

/// What a checkerboard returns at a surface coordinate: the parity of the
/// product of the two wrapped coordinates picks the color.
pub open spec fn spec_chess_color(m: ChessboardMaterial, u: int, v: int) -> ColorVector {
    let t = fx_mul_spec(
        spec_wrap_up_scale(u, m.scale as int),
        spec_wrap_up_scale(v, m.scale as int),
    );
    if t < 0 {
        m.color_even
    } else {
        m.color_odd
    }
}

impl SolidMaterial {
    pub fn new(gloss: i64, reflection: i64, refraction: i64, transparency: i64,
        color: ColorVector) -> (m: SolidMaterial)
        ensures
            m == (SolidMaterial {
                material: BaseMaterial { gloss, reflection, refraction, transparency },
                color,
            }),
    {
        SolidMaterial {
            material: BaseMaterial { gloss, reflection, refraction, transparency },
            color,
        }
    }
}

impl ChessboardMaterial {
    fn wrap_up_scale(t: i64, scale: i64) -> (r: i64)
        ensures
            r as int == spec_wrap_up_scale(t as int, scale as int),
    {
        let half = fx_half_of(scale);
        let mut x = fx_rem(t, scale);
        if x < fx_neg(half) {
            x = fx_add(x, scale);
        }
        if x >= half {
            x = fx_sub(x, scale);
        }
        x
    }
}

/// The closed set of materials a scene can carry.
#[derive(Debug, Clone, Copy, PartialEq, Eq, Structural)]
pub enum SceneMaterial {
    Solid(SolidMaterial),
    Chessboard(ChessboardMaterial),
}

/// What `get_color` returns: the constant color of a solid material, the
/// tiling color of a checkerboard.
pub open spec fn spec_material_color(m: SceneMaterial, u: int, v: int) -> ColorVector {
    match m {
        SceneMaterial::Solid(s) => s.color,
        SceneMaterial::Chessboard(c) => spec_chess_color(c, u, v),
    }
}

/// The gloss capability of a material.
pub open spec fn spec_material_gloss(m: SceneMaterial) -> i64 {
    match m {
        SceneMaterial::Solid(s) => s.material.gloss,
        SceneMaterial::Chessboard(c) => c.material.gloss,
    }
}

/// The reflectivity capability of a material.
pub open spec fn spec_material_reflection(m: SceneMaterial) -> i64 {
    match m {
        SceneMaterial::Solid(s) => s.material.reflection,
        SceneMaterial::Chessboard(c) => c.material.reflection,
    }
}

/// The refractive index of a material.
pub open spec fn spec_material_refraction(m: SceneMaterial) -> i64 {
    match m {
        SceneMaterial::Solid(s) => s.material.refraction,
        SceneMaterial::Chessboard(c) => c.material.refraction,
    }
}

/// The transparency of a material.
pub open spec fn spec_material_transparency(m: SceneMaterial) -> i64 {
    match m {
        SceneMaterial::Solid(s) => s.material.transparency,
        SceneMaterial::Chessboard(c) => c.material.transparency,
    }
}

impl SceneMaterial {
    /// The surface color at a coordinate pair.
    pub fn get_color(&self, u: i64, v: i64) -> (c: ColorVector)
        ensures
            c == spec_material_color(*self, u as int, v as int),
    {
        match self {
            SceneMaterial::Solid(s) => s.color,
            SceneMaterial::Chessboard(c) => {
                let t = fx_mul(
                    ChessboardMaterial::wrap_up_scale(u, c.scale),
                    ChessboardMaterial::wrap_up_scale(v, c.scale),
                );
                if t < 0 {
                    c.color_even
                } else {
                    c.color_odd
                }
            },
        }
    }

    /// Whether the color varies over the surface.
    pub fn has_texture(&self) -> (r: bool)
        ensures
            r == (self is Chessboard),
    {
        match self {
            SceneMaterial::Solid(_) => false,
            SceneMaterial::Chessboard(_) => true,
        }
    }

    pub fn get_gloss(&self) -> (r: i64)
        ensures
            r == spec_material_gloss(*self),
    {
        match self {
            SceneMaterial::Solid(s) => s.material.gloss,
            SceneMaterial::Chessboard(c) => c.material.gloss,
        }
    }

    pub fn get_reflection(&self) -> (r: i64)
        ensures
            r == spec_material_reflection(*self),
    {
        match self {
            SceneMaterial::Solid(s) => s.material.reflection,
            SceneMaterial::Chessboard(c) => c.material.reflection,
        }
    }

    pub fn get_refraction(&self) -> (r: i64)
        ensures
            r == spec_material_refraction(*self),
    {
        match self {
            SceneMaterial::Solid(s) => s.material.refraction,
            SceneMaterial::Chessboard(c) => c.material.refraction,
        }
    }

    pub fn get_transparency(&self) -> (r: i64)
        ensures
            r == spec_material_transparency(*self),
    {
        match self {
            SceneMaterial::Solid(s) => s.material.transparency,
            SceneMaterial::Chessboard(c) => c.material.transparency,
        }
    }
}

} // verus!

use vstd::arithmetic::div_mod::lemma_fundamental_div_mod;
use vstd::arithmetic::div_mod::lemma_mod_multiples_basic;

verus! {

/// For an even positive scale, the wrap lands in the half-open period
/// centered on zero and moves the coordinate by a whole number of
/// periods.  For an odd scale the truncated half-period can leave a
/// boundary value one quantum outside the interval; the tiling scales
/// the renderer uses are even.
pub proof fn lemma_wrap_up_scale_period(t: int, scale: int)
    requires
        0 < scale,
        scale <= i64::MAX as int / 2,
        scale % 2 == 0,
    ensures
        -(scale / 2) <= spec_wrap_up_scale(t, scale),
        spec_wrap_up_scale(t, scale) < scale / 2,
        (t - spec_wrap_up_scale(t, scale)) % scale == 0,
{
    let h = scale / 2;
    lemma_fundamental_div_mod(scale, 2);
    assert(scale == 2 * h);
    assert(div_to_zero(scale, 2) == h);

    let r = rem_to_zero(t, scale);
    if t >= 0 {
        lemma_fundamental_div_mod(t, scale);
        assert(r == t % scale);
        assert(0 <= r < scale);
        let q = t / scale;
        assert(t - r == scale * q);
        assert(scale * q == q * scale) by (nonlinear_arith);
        lemma_mod_multiples_basic(q, scale);
    } else {
        lemma_fundamental_div_mod(-t, scale);
        assert(r == -((-t) % scale));
        assert(-scale < r <= 0);
        let q = (-t) / scale;
        assert(-t - (-r) == scale * q);
        assert(t - r == scale * (-q)) by (nonlinear_arith)
            requires
                -t + r == scale * q,
        ;
        assert(scale * (-q) == (-q) * scale) by (nonlinear_arith);
        lemma_mod_multiples_basic(-q, scale);
    }

    let w = spec_wrap_up_scale(t, scale);
    assert(w == r || w == r + scale || w == r - scale);
    if w == r + scale {
        assert((t - w) % scale == 0) by {
            assert(t - w == t - r - scale);
            lemma_fundamental_div_mod(t - r, scale);
            let q2 = (t - r) / scale;
            assert(t - r == scale * q2 + 0);
            assert(t - w == scale * (q2 - 1)) by (nonlinear_arith)
                requires
                    t - r == scale * q2,
                    t - w == t - r - scale,
            ;
            assert(scale * (q2 - 1) == (q2 - 1) * scale) by (nonlinear_arith);
            lemma_mod_multiples_basic(q2 - 1, scale);
        }
    } else if w == r - scale {
        assert((t - w) % scale == 0) by {
            lemma_fundamental_div_mod(t - r, scale);
            let q2 = (t - r) / scale;
            assert(t - r == scale * q2 + 0);
            assert(t - w == scale * (q2 + 1)) by (nonlinear_arith)
                requires
                    t - r == scale * q2,
                    t - w == t - r + scale,
            ;
            assert(scale * (q2 + 1) == (q2 + 1) * scale) by (nonlinear_arith);
            lemma_mod_multiples_basic(q2 + 1, scale);
        }
    }
}

} // verus!
