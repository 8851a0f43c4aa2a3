//! Rays, and the camera that casts them through the image plane.

use vstd::prelude::*;

use crate::posvector::PosVector;
use crate::posvector::spec_pv_add;
use crate::posvector::spec_pv_cross;
use crate::posvector::spec_pv_normalize;
use crate::posvector::spec_pv_scale;
use crate::posvector::spec_pv_sub;

verus! {

/// A half-line: an origin and a direction.
#[derive(Debug, Clone, Copy, PartialEq, Eq, Structural)]
pub struct Ray {
    pub position: PosVector,
    pub direction: PosVector,
}

impl Ray {
    pub fn new(position: PosVector, direction: PosVector) -> (r: Ray)
        ensures
            r == (Ray { position, direction }),
    {
        Ray { position, direction }
    }

    pub fn get_position(&self) -> (p: PosVector)
        ensures
            p == self.position,
    {
        self.position
    }

    pub fn get_direction(&self) -> (d: PosVector)
        ensures
            d == self.direction,
    {
        self.direction
    }
}

/// A camera with a derived orthonormal view basis.
///
/// `a1` and `a2` span the screen, `a3` points into it, and `dval` is the
/// projection scale: the cotangent of half the view angle.  The
/// trigonometry that turns a field of view in degrees into that cotangent
/// has no fixed-point form here, so the constructor takes the scale as an
/// argument beside the raw field of view.
#[derive(Debug, Clone, Copy, PartialEq, Eq, Structural)]
pub struct Camera {
    pub position: PosVector,
    pub look_at: PosVector,
    pub up: PosVector,
    pub fov: i64,
    pub a1: PosVector,
    pub a2: PosVector,
    pub a3: PosVector,
    pub dval: i64,
}

/// The forward basis vector before normalization: toward the look-at point.
pub open spec fn spec_camera_a3_raw(position: PosVector, look_at: PosVector) -> PosVector {
    spec_pv_sub(look_at, position)
}

/// The screen x axis before normalization.
pub open spec fn spec_camera_a1_raw(position: PosVector, look_at: PosVector,
    up: PosVector) -> PosVector {
    spec_pv_cross(spec_camera_a3_raw(position, look_at), up)
}

/// The screen y axis before normalization.
pub open spec fn spec_camera_a2_raw(position: PosVector, look_at: PosVector,
    up: PosVector) -> PosVector {
    spec_pv_cross(
        spec_camera_a1_raw(position, look_at, up),
        spec_camera_a3_raw(position, look_at),
    )
}

/// What a ray through normalized device coordinates `(vx, vy)` is: the
/// forward axis scaled by the projection scale, offset along the two
/// screen axes, normalized; it starts at the camera.
pub open spec fn spec_camera_ray(cam: Camera, vx: i64, vy: i64) -> Ray {
    let center = spec_pv_scale(cam.a3, cam.dval as int);
    let dir = spec_pv_add(
        spec_pv_add(center, spec_pv_scale(cam.a1, vx as int)),
        spec_pv_scale(cam.a2, vy as int),
    );
    Ray { position: cam.position, direction: spec_pv_normalize(dir) }
}

impl Camera {
    /// Derive the view basis from position, look-at point and up hint.
    /// `projection_scale` is the cotangent of half the view angle, already
    /// in fixed point; `fov` keeps the raw field of view for reference.
    pub fn new(position: PosVector, look_at: PosVector, up: PosVector, fov: i64,
        projection_scale: i64) -> (cam: Camera)
        ensures
            cam.position == position,
            cam.look_at == look_at,
            cam.up == up,
            cam.fov == fov,
            cam.dval == projection_scale,
            cam.a1 == spec_pv_normalize(spec_camera_a1_raw(position, look_at, up)),
            cam.a2 == spec_pv_normalize(spec_camera_a2_raw(position, look_at, up)),
            cam.a3 == spec_pv_normalize(spec_camera_a3_raw(position, look_at)),
    {
        let a3 = look_at.subtract(position);
        let a1 = a3.cross(up);
        let a2 = a1.cross(a3);

        Camera {
            position,
            look_at,
            up,
            fov,
            a1: a1.normalize(),
            a2: a2.normalize(),
            a3: a3.normalize(),
            dval: projection_scale,
        }
    }

    pub fn get_position(&self) -> (p: PosVector)
        ensures
            p == self.position,
    {
        self.position
    }

    /// The ray from the camera through normalized device coordinates.
    pub fn get_ray(&self, vx: i64, vy: i64) -> (r: Ray)
        ensures
            r == spec_camera_ray(*self, vx, vy),
    {
        let center = self.a3.multiply_by_scalar(self.dval);
        let dir = center.add(self.a1.multiply_by_scalar(vx)).add(
            self.a2.multiply_by_scalar(vy),
        );

        Ray { position: self.position, direction: dir.normalize() }
    }
}

} // verus!
