//! Color values over fixed-point scalars.
//!
//! A channel conceptually lies in the real interval zero to one (zero to
//! `FX_ONE` in fixed point), but intermediate arithmetic may leave that
//! range; `clamp` restores it only at the output boundary.

use vstd::prelude::*;

use crate::fixed::FX_ONE;
use crate::fixed::fx_add;
use crate::fixed::fx_add_spec;
use crate::fixed::fx_mul;
use crate::fixed::fx_mul_spec;
use crate::fixed::fx_sub;
use crate::fixed::fx_sub_spec;

verus! {

/// A color with red, green and blue channels.
#[derive(Debug, Clone, Copy, PartialEq, Eq, Structural)]
pub struct ColorVector {
    pub r: i64,
    pub g: i64,
    pub b: i64,
}

/// A channel value pushed back into the displayable range.
pub open spec fn spec_clamp_val(v: i64) -> i64 {
    if v < 0 {
        0
    } else if v > FX_ONE {
        FX_ONE
    } else {
        v
    }
}

/// What `clamp` returns: every channel in the displayable range.
pub open spec fn spec_cv_clamp(c: ColorVector) -> ColorVector {
    ColorVector { r: spec_clamp_val(c.r), g: spec_clamp_val(c.g), b: spec_clamp_val(c.b) }
}

/// What scaling a color returns.
pub open spec fn spec_cv_scale(c: ColorVector, s: int) -> ColorVector {
    ColorVector {
        r: fx_mul_spec(c.r as int, s) as i64,
        g: fx_mul_spec(c.g as int, s) as i64,
        b: fx_mul_spec(c.b as int, s) as i64,
    }
}

/// What adding two colors returns.
pub open spec fn spec_cv_add(a: ColorVector, b: ColorVector) -> ColorVector {
    ColorVector {
        r: fx_add_spec(a.r as int, b.r as int) as i64,
        g: fx_add_spec(a.g as int, b.g as int) as i64,
        b: fx_add_spec(a.b as int, b.b as int) as i64,
    }
}

/// What multiplying two colors channel by channel returns.
pub open spec fn spec_cv_multiply(a: ColorVector, b: ColorVector) -> ColorVector {
    ColorVector {
        r: fx_mul_spec(a.r as int, b.r as int) as i64,
        g: fx_mul_spec(a.g as int, b.g as int) as i64,
        b: fx_mul_spec(a.b as int, b.b as int) as i64,
    }
}

/// What `blend` returns: `self*(1-w) + other*(1-w)`.  The weight scales
/// both sides the same way: this is deliberately not the conventional
/// linear interpolation.
pub open spec fn spec_cv_blend(a: ColorVector, b: ColorVector, w: i64) -> ColorVector {
    spec_cv_add(
        spec_cv_scale(a, fx_sub_spec(FX_ONE as int, w as int)),
        spec_cv_scale(b, fx_sub_spec(FX_ONE as int, w as int)),
    )
}

impl ColorVector {
    pub fn new(r: i64, g: i64, b: i64) -> (c: ColorVector)
        ensures
            c == (ColorVector { r, g, b }),
    {
        ColorVector { r, g, b }
    }

    fn clamp_val(val: i64) -> (r: i64)
        ensures
            r == spec_clamp_val(val),
    {
        if val < 0 {
            0
        } else {
            if val > FX_ONE {
                FX_ONE
            } else {
                val
            }
        }
    }

    /// Every channel pushed back into the displayable range.
    pub fn clamp(&self) -> (c: ColorVector)
        ensures
            c == spec_cv_clamp(*self),
    {
        ColorVector {
            r: ColorVector::clamp_val(self.r),
            g: ColorVector::clamp_val(self.g),
            b: ColorVector::clamp_val(self.b),
        }
    }

    pub fn multiply_by_scalar(&self, scalar: i64) -> (c: ColorVector)
        ensures
            c == spec_cv_scale(*self, scalar as int),
    {
        ColorVector {
            r: fx_mul(self.r, scalar),
            g: fx_mul(self.g, scalar),
            b: fx_mul(self.b, scalar),
        }
    }

    pub fn add(&self, other: ColorVector) -> (c: ColorVector)
        ensures
            c == spec_cv_add(*self, other),
    {
        ColorVector {
            r: fx_add(self.r, other.r),
            g: fx_add(self.g, other.g),
            b: fx_add(self.b, other.b),
        }
    }

    /// Channel-by-channel product, as the diffuse term mixes a surface
    /// color with a light color.
    pub fn multiply(&self, other: ColorVector) -> (c: ColorVector)
        ensures
            c == spec_cv_multiply(*self, other),
    {
        ColorVector {
            r: fx_mul(self.r, other.r),
            g: fx_mul(self.g, other.g),
            b: fx_mul(self.b, other.b),
        }
    }

    /// Blend toward `other`: both sides scaled by one minus the weight.
    pub fn blend(&self, other: ColorVector, weight: i64) -> (c: ColorVector)
        ensures
            c == spec_cv_blend(*self, other, weight),
    {
        let temp = self.multiply_by_scalar(fx_sub(FX_ONE, weight));
        let temp2 = temp.add(other.multiply_by_scalar(fx_sub(FX_ONE, weight)));
        temp2
    }
}

} // verus!
