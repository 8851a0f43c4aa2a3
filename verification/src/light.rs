//! Light sources: a point light with a position and a color.

use vstd::prelude::*;

use crate::color::ColorVector;
use crate::posvector::PosVector;

verus! {

/// A light radiating from a single point.
#[derive(Debug, Clone, Copy, PartialEq, Eq, Structural)]
pub struct PointLight {
    pub position: PosVector,
    pub color: ColorVector,
}

impl PointLight {
    pub fn new(position: PosVector, color: ColorVector) -> (l: PointLight)
        ensures
            l == (PointLight { position, color }),
    {
        PointLight { position, color }
    }

    pub fn get_position(&self) -> (p: PosVector)
        ensures
            p == self.position,
    {
        self.position
    }

    pub fn get_color(&self) -> (c: ColorVector)
        ensures
            c == self.color,
    {
        self.color
    }
}

} // verus!
