//! Geometry: spheres, planes and triangles, their ray intersections, and
//! axis-aligned bounding boxes.

use vstd::prelude::*;

use crate::camera::Ray;
use crate::fixed::FX_NO_HIT;
use crate::fixed::FX_ONE;
use crate::fixed::fx_add;
use crate::fixed::fx_add_spec;
use crate::fixed::fx_div;
use crate::fixed::fx_div_spec;
use crate::fixed::fx_max;
use crate::fixed::fx_min;
use crate::fixed::fx_mul;
use crate::fixed::fx_mul_spec;
use crate::fixed::fx_neg;
use crate::fixed::fx_sqrt;
use crate::fixed::fx_sqrt_spec;
use crate::fixed::fx_sub;
use crate::fixed::fx_sub_spec;
use crate::fixed::sat64;
use crate::material::SceneMaterial;
use crate::material::spec_material_color;
use crate::posvector::PosVector;
use crate::posvector::spec_pv_add;
use crate::posvector::spec_pv_add_scaled;
use crate::posvector::spec_pv_cross;
use crate::posvector::spec_pv_div;
use crate::posvector::spec_pv_dot;
use crate::posvector::spec_pv_magnitude;
use crate::posvector::spec_pv_magnitude_squared;
use crate::posvector::spec_pv_normalize;
use crate::posvector::spec_pv_scale;
use crate::posvector::spec_pv_sub;
use crate::tracer::IntersectionInfo;
use crate::tracer::spec_no_hit;

verus! {

/// The extent of a shape along one axis.
#[derive(Debug, Clone, Copy, PartialEq, Eq, Structural)]
pub struct Bound {
    pub min: i64,
    pub max: i64,
}

impl Bound {
    pub fn new(min: i64, max: i64) -> (b: Bound)
        ensures
            b == (Bound { min, max }),
    {
        Bound { min, max }
    }
}

/// A sphere: a center and a radius.
#[derive(Debug, Clone, Copy, PartialEq, Eq, Structural)]
pub struct SphereShape {
    pub position: PosVector,
    pub radius: i64,
    pub material: SceneMaterial,
    pub id: u32,
}

/// A plane: a unit normal and a signed offset from the origin.
#[derive(Debug, Clone, Copy, PartialEq, Eq, Structural)]
pub struct PlaneShape {
    pub position: PosVector,
    pub d_val: i64,
    pub material: SceneMaterial,
    pub id: u32,
}

/// A triangle: three vertices with precomputed edges, unit normal, plane
/// coefficient and barycentric projection vectors.
#[derive(Debug, Clone, Copy, PartialEq, Eq, Structural)]
pub struct TriangleShape {
    pub va: PosVector,
    pub vb: PosVector,
    pub vc: PosVector,
    pub front_material: SceneMaterial,
    pub back_material: SceneMaterial,
    pub id: u32,
    pub edge_ab: PosVector,
    pub edge_bc: PosVector,
    pub edge_ca: PosVector,
    pub normal: PosVector,
    pub magnitude: i64,
    pub plane_coefficient: i64,
    pub u_beta: PosVector,
    pub u_gamma: PosVector,
}

/// What intersecting a sphere returns.  With `b` the projection of the
/// ray origin's offset from the center onto the direction and `c` that
/// offset's squared length less the squared radius, a positive
/// discriminant `b*b - c` gives a hit at distance `-b - sqrt(b*b - c)`:
/// the near root only.
pub open spec fn spec_sphere_intersect(s: SphereShape, ray: Ray) -> IntersectionInfo {
    let dst = spec_pv_sub(ray.position, s.position);
    let b = spec_pv_dot(dst, ray.direction);
    let c = fx_sub_spec(
        spec_pv_dot(dst, dst) as int,
        fx_mul_spec(s.radius as int, s.radius as int),
    );
    let d = fx_sub_spec(fx_mul_spec(b as int, b as int), c);
    if d > 0 {
        let distance = fx_sub_spec(sat64(-(b as int)), fx_sqrt_spec(d)) as i64;
        let position = spec_pv_add(ray.position, spec_pv_scale(ray.direction, distance as int));
        let normal = spec_pv_normalize(spec_pv_sub(position, s.position));
        let color = spec_material_color(s.material, 0, 0);
        IntersectionInfo { color, distance, element_id: 0, is_hit: true, normal, position }
    } else {
        spec_no_hit()
    }
}

/// What intersecting a plane returns.  A ray whose direction does not
/// approach the plane (`dot(normal, direction) >= 0`) misses; otherwise
/// the hit lies at `t = -(dot(normal, origin) + offset) / vd`, and only a
/// strictly positive `t` counts.  A textured material is sampled over a
/// two-dimensional basis derived from the normal.
pub open spec fn spec_plane_intersect(p: PlaneShape, ray: Ray) -> IntersectionInfo {
    let vd = spec_pv_dot(p.position, ray.direction);
    if vd >= 0 {
        spec_no_hit()
    } else {
        let t = fx_div_spec(
            sat64(-(fx_add_spec(spec_pv_dot(p.position, ray.position) as int, p.d_val as int))),
            vd as int,
        ) as i64;
        if t <= 0 {
            spec_no_hit()
        } else {
            let ip = spec_pv_add(ray.position, spec_pv_scale(ray.direction, t as int));
            let color = if p.material is Chessboard {
                let vec_u = PosVector {
                    x: p.position.y,
                    y: p.position.z,
                    z: sat64(-(p.position.x as int)) as i64,
                };
                let vec_v = spec_pv_cross(vec_u, p.position);
                spec_material_color(
                    p.material,
                    spec_pv_dot(ip, vec_u) as int,
                    spec_pv_dot(ip, vec_v) as int,
                )
            } else {
                spec_material_color(p.material, 0, 0)
            };
            IntersectionInfo {
                color,
                distance: t,
                element_id: 0,
                is_hit: true,
                normal: p.position,
                position: ip,
            }
        }
    }
}

/// The unnormalized triangle normal: the cross product of the two edges
/// with the larger mutual angle, for numerical stability.
pub open spec fn spec_triangle_normal_raw(edge_ab: PosVector, edge_bc: PosVector,
    edge_ca: PosVector) -> PosVector {
    if spec_pv_dot(edge_ab, edge_bc) < spec_pv_dot(edge_bc, edge_ca) {
        spec_pv_cross(edge_ab, edge_bc)
    } else {
        spec_pv_cross(edge_bc, edge_ca)
    }
}

/// What building a triangle precomputes: edges, the unit normal (left
/// zero when the vertices are collinear, so that intersection always
/// misses such a degenerate triangle), the plane coefficient, and the two
/// barycentric projection vectors (left zero when the barycentric
/// denominator degenerates to zero).
pub open spec fn spec_triangle_new(va: PosVector, vb: PosVector, vc: PosVector,
    front_material: SceneMaterial, back_material: SceneMaterial, id: u32) -> TriangleShape {
    let edge_ab = spec_pv_sub(vb, va);
    let edge_bc = spec_pv_sub(vc, vb);
    let edge_ca = spec_pv_sub(va, vc);
    let raw = spec_triangle_normal_raw(edge_ab, edge_bc, edge_ca);
    let magnitude = spec_pv_magnitude(raw);
    let normal = if magnitude > 0 {
        spec_pv_div(raw, magnitude as int)
    } else {
        raw
    };
    let plane_coefficient = spec_pv_dot(normal, va);
    let a = spec_pv_magnitude_squared(edge_ab);
    let b = spec_pv_dot(edge_ab, edge_ca);
    let c = spec_pv_magnitude_squared(edge_ca);
    let denom = fx_sub_spec(
        fx_mul_spec(a as int, c as int),
        fx_mul_spec(b as int, b as int),
    );
    let dinv = if denom == 0 {
        0
    } else {
        fx_div_spec(FX_ONE as int, denom)
    };
    let sa = fx_mul_spec(a as int, dinv) as i64;
    let sb = fx_mul_spec(b as int, dinv) as i64;
    let sc = fx_mul_spec(c as int, dinv) as i64;
    let u_beta = spec_pv_add_scaled(
        spec_pv_scale(edge_ab, sc as int),
        edge_ca,
        sat64(-(sb as int)),
    );
    let u_gamma = spec_pv_add_scaled(
        spec_pv_scale(edge_ca, sat64(-(sa as int))),
        edge_ab,
        sb as int,
    );
    TriangleShape {
        va,
        vb,
        vc,
        front_material,
        back_material,
        id,
        edge_ab,
        edge_bc,
        edge_ca,
        normal,
        magnitude,
        plane_coefficient,
        u_beta,
        u_gamma,
    }
}

/// Whether the plane-level tests already reject a ray against a triangle:
/// a front-facing ray must start strictly above the plane and within the
/// maximum distance, a back-facing one strictly below it.
pub open spec fn spec_triangle_plane_reject(t: TriangleShape, ray: Ray) -> bool {
    let mdotn = spec_pv_dot(ray.direction, t.normal);
    let planar_dist = fx_sub_spec(
        spec_pv_dot(ray.position, t.normal) as int,
        t.plane_coefficient as int,
    ) as i64;
    if mdotn <= 0 {
        planar_dist <= 0 || planar_dist as int >= fx_mul_spec(
            sat64(-(FX_NO_HIT as int)),
            mdotn as int,
        )
    } else {
        planar_dist >= 0 || sat64(-(planar_dist as int)) >= fx_mul_spec(
            FX_NO_HIT as int,
            mdotn as int,
        )
    }
}

/// What intersecting a triangle returns: after the plane-level tests, the
/// hit point's barycentric coordinates against the precomputed projection
/// vectors must both be nonnegative with sum at most one; the facing side
/// picks the material.
pub open spec fn spec_triangle_intersect(t: TriangleShape, ray: Ray) -> IntersectionInfo {
    let mdotn = spec_pv_dot(ray.direction, t.normal);
    let front_face = mdotn <= 0;
    if spec_triangle_plane_reject(t, ray) {
        spec_no_hit()
    } else {
        let planar_dist = fx_sub_spec(
            spec_pv_dot(ray.position, t.normal) as int,
            t.plane_coefficient as int,
        ) as i64;
        let distance = fx_div_spec(sat64(-(planar_dist as int)), mdotn as int) as i64;
        let q = spec_pv_add(spec_pv_scale(ray.direction, distance as int), ray.position);
        let v = spec_pv_sub(q, t.va);
        let v_coord = spec_pv_dot(v, t.u_beta);
        let w_coord = spec_pv_dot(v, t.u_gamma);
        if v_coord < 0 || w_coord < 0 || fx_add_spec(v_coord as int, w_coord as int) > FX_ONE {
            spec_no_hit()
        } else {
            let color = if front_face {
                spec_material_color(t.front_material, v_coord as int, w_coord as int)
            } else {
                spec_material_color(t.back_material, v_coord as int, w_coord as int)
            };
            IntersectionInfo {
                color,
                distance,
                element_id: 0,
                is_hit: true,
                normal: t.normal,
                position: q,
            }
        }
    }
}

impl SphereShape {
    pub fn get_position(&self) -> (p: PosVector)
        ensures
            p == self.position,
    {
        self.position
    }

    pub fn get_material(&self) -> (m: SceneMaterial)
        ensures
            m == self.material,
    {
        self.material
    }

    /// The nearest forward hit of a ray against this sphere, or no hit.
    pub fn intersect(&self, ray: &Ray) -> (r: IntersectionInfo)
        ensures
            r == spec_sphere_intersect(*self, *ray),
    {
        let dst = ray.get_position().subtract(self.position);
        let b = dst.dot_product(ray.get_direction());
        let c = fx_sub(dst.dot_product(dst), fx_mul(self.radius, self.radius));
        let d = fx_sub(fx_mul(b, b), c);

        if d > 0 {
            let distance = fx_sub(fx_neg(b), fx_sqrt(d));
            let position = ray.get_position().add(
                ray.get_direction().multiply_by_scalar(distance),
            );
            let normal = position.subtract(self.position).normalize();
            let color = self.material.get_color(0, 0);
            IntersectionInfo::new(color, distance, normal, position)
        } else {
            IntersectionInfo::new_default()
        }
    }

    /// The sphere's extent along a cardinal axis: the center's
    /// projection, less the radius to more the radius, so the bound
    /// encloses the sphere.
    pub fn calculate_bounding_planes(&self, unit_vec: PosVector) -> (b: Bound)
        ensures
            b.min as int == fx_sub_spec(
                spec_pv_dot(unit_vec, self.position) as int,
                self.radius as int,
            ),
            b.max as int == fx_add_spec(
                spec_pv_dot(unit_vec, self.position) as int,
                self.radius as int,
            ),
    {
        let cd = unit_vec.dot_product(self.position);
        Bound::new(fx_sub(cd, self.radius), fx_add(cd, self.radius))
    }
}

impl PlaneShape {
    pub fn get_position(&self) -> (p: PosVector)
        ensures
            p == self.position,
    {
        self.position
    }

    pub fn get_material(&self) -> (m: SceneMaterial)
        ensures
            m == self.material,
    {
        self.material
    }

    /// The hit of a ray against this plane, or no hit.  A ray that does
    /// not approach the plane, in particular one parallel to it, misses.
    pub fn intersect(&self, ray: &Ray) -> (r: IntersectionInfo)
        ensures
            r == spec_plane_intersect(*self, *ray),
            spec_pv_dot(self.position, ray.direction) >= 0 ==> !r.is_hit,
    {
        let vd = self.position.dot_product(ray.get_direction());

        if vd >= 0 {
            IntersectionInfo::new_default()
        } else {
            let t = fx_div(
                fx_neg(fx_add(self.position.dot_product(ray.get_position()), self.d_val)),
                vd,
            );

            if t <= 0 {
                IntersectionInfo::new_default()
            } else {
                let intersect_position = ray.get_position().add(
                    ray.get_direction().multiply_by_scalar(t),
                );

                let color = if self.material.has_texture() {
                    let vec_u = PosVector::new(
                        self.position.y,
                        self.position.z,
                        fx_neg(self.position.x),
                    );
                    let vec_v = vec_u.cross(self.position);
                    let u = intersect_position.dot_product(vec_u);
                    let v = intersect_position.dot_product(vec_v);
                    self.material.get_color(u, v)
                } else {
                    self.material.get_color(0, 0)
                };

                IntersectionInfo::new(color, t, self.position, intersect_position)
            }
        }
    }

    /// A plane has no finite extent; a unit bound stands in.
    pub fn calculate_bounding_planes(&self, _unit_vec: PosVector) -> (b: Bound)
        ensures
            b == (Bound { min: FX_ONE, max: FX_ONE }),
    {
        Bound::new(FX_ONE, FX_ONE)
    }
}

impl TriangleShape {
    /// Build a triangle from three vertices, precomputing its edges, unit
    /// normal, plane coefficient and barycentric projection vectors.
    /// Collinear vertices leave the normal zero, and every ray then
    /// misses the triangle.
    pub fn new(va: PosVector, vb: PosVector, vc: PosVector, front_material: SceneMaterial,
        back_material: SceneMaterial, id: u32) -> (t: TriangleShape)
        ensures
            t == spec_triangle_new(va, vb, vc, front_material, back_material, id),
    {
        let edge_ab = vb.subtract(va);
        let edge_bc = vc.subtract(vb);
        let edge_ca = va.subtract(vc);

        let mut normal = if edge_ab.dot_product(edge_bc) < edge_bc.dot_product(edge_ca) {
            edge_ab.cross(edge_bc)
        } else {
            edge_bc.cross(edge_ca)
        };
        let magnitude = normal.magnitude();
        if magnitude > 0 {
            normal = normal.divide_by_scalar(magnitude);
        }
        let plane_coefficient = normal.dot_product(va);

        let mut a = edge_ab.magnitude_squared();
        let mut b = edge_ab.dot_product(edge_ca);
        let mut c = edge_ca.magnitude_squared();
        let denom = fx_sub(fx_mul(a, c), fx_mul(b, b));
        let dinv = if denom == 0 {
            0
        } else {
            fx_div(FX_ONE, denom)
        };

        a = fx_mul(a, dinv);
        b = fx_mul(b, dinv);
        c = fx_mul(c, dinv);

        let mut u_beta = edge_ab;
        u_beta = u_beta.multiply_by_scalar(c);
        u_beta = u_beta.add_scaled(edge_ca, fx_neg(b));

        let mut u_gamma = edge_ca;
        u_gamma = u_gamma.multiply_by_scalar(fx_neg(a));
        u_gamma = u_gamma.add_scaled(edge_ab, b);

        TriangleShape {
            va,
            vb,
            vc,
            front_material,
            back_material,
            id,
            edge_ab,
            edge_bc,
            edge_ca,
            normal,
            magnitude,
            plane_coefficient,
            u_beta,
            u_gamma,
        }
    }

    /// Whether the triangle's normal is nonzero: collinear vertices fail
    /// this and never report a hit.
    pub fn is_well_formed(&self) -> (r: bool)
        ensures
            r == (spec_pv_magnitude_squared(self.normal) > 0),
    {
        self.normal.magnitude_squared() > 0
    }

    /// Whether rays from behind are culled; every triangle here carries a
    /// back material, so none are.
    pub fn is_backface_culled(&self) -> (r: bool)
        ensures
            r == false,
    {
        false
    }

    pub fn get_position(&self) -> (p: PosVector)
        ensures
            p == self.va,
    {
        self.va
    }

    pub fn get_material(&self) -> (m: SceneMaterial)
        ensures
            m == self.front_material,
    {
        self.front_material
    }

    /// The hit of a ray against this triangle, or no hit.
    pub fn intersect(&self, ray: &Ray) -> (r: IntersectionInfo)
        ensures
            r == spec_triangle_intersect(*self, *ray),
    {
        let mdotn = ray.get_direction().dot_product(self.normal);
        let planar_dist = fx_sub(
            ray.get_position().dot_product(self.normal),
            self.plane_coefficient,
        );

        let front_face = mdotn <= 0;
        let plane_reject = if front_face {
            planar_dist <= 0 || planar_dist >= fx_mul(fx_neg(FX_NO_HIT), mdotn)
        } else {
            self.is_backface_culled() || planar_dist >= 0 || fx_neg(planar_dist) >= fx_mul(
                FX_NO_HIT,
                mdotn,
            )
        };

        if plane_reject {
            IntersectionInfo::new_default()
        } else {
            let intersect_distance = fx_div(fx_neg(planar_dist), mdotn);
            let mut q = ray.get_direction();
            q = q.multiply_by_scalar(intersect_distance);
            q = q.add(ray.get_position());

            let mut v = q;
            v = v.subtract(self.va);
            let v_coord = v.dot_product(self.u_beta);
            let w_coord = v.dot_product(self.u_gamma);

            if v_coord < 0 || w_coord < 0 || fx_add(v_coord, w_coord) > FX_ONE {
                IntersectionInfo::new_default()
            } else {
                let color = if front_face {
                    self.front_material.get_color(v_coord, w_coord)
                } else {
                    self.back_material.get_color(v_coord, w_coord)
                };
                IntersectionInfo::new(color, intersect_distance, self.normal, q)
            }
        }
    }

    /// The triangle's extent along a cardinal axis: the least and the
    /// greatest of the three vertex projections, so the bound encloses
    /// the triangle.
    pub fn calculate_bounding_planes(&self, unit_vec: PosVector) -> (bd: Bound)
        ensures
            ({
                let da = spec_pv_dot(unit_vec, self.va);
                let db = spec_pv_dot(unit_vec, self.vb);
                let dc = spec_pv_dot(unit_vec, self.vc);
                bd.min == spec_min3(da, db, dc) && bd.max == spec_max3(da, db, dc)
            }),
    {
        let da = unit_vec.dot_product(self.va);
        let db = unit_vec.dot_product(self.vb);
        let dc = unit_vec.dot_product(self.vc);
        let min_d = fx_min(fx_min(da, db), dc);
        let max_d = fx_max(fx_max(da, db), dc);
        Bound::new(min_d, max_d)
    }
}

/// The closed set of shapes a scene can hold.
#[derive(Debug, Clone, Copy, PartialEq, Eq, Structural)]
pub enum ShapeKind {
    Sphere(SphereShape),
    Plane(PlaneShape),
    Triangle(TriangleShape),
}

/// What intersecting any shape returns: the variant's own intersection.
pub open spec fn spec_shape_intersect(s: ShapeKind, ray: Ray) -> IntersectionInfo {
    match s {
        ShapeKind::Sphere(sp) => spec_sphere_intersect(sp, ray),
        ShapeKind::Plane(pl) => spec_plane_intersect(pl, ray),
        ShapeKind::Triangle(tr) => spec_triangle_intersect(tr, ray),
    }
}

/// The anchor position of any shape.
pub open spec fn spec_shape_position(s: ShapeKind) -> PosVector {
    match s {
        ShapeKind::Sphere(sp) => sp.position,
        ShapeKind::Plane(pl) => pl.position,
        ShapeKind::Triangle(tr) => tr.va,
    }
}

/// The material of any shape (a triangle's front material).
pub open spec fn spec_shape_material(s: ShapeKind) -> SceneMaterial {
    match s {
        ShapeKind::Sphere(sp) => sp.material,
        ShapeKind::Plane(pl) => pl.material,
        ShapeKind::Triangle(tr) => tr.front_material,
    }
}

impl ShapeKind {
    pub fn get_position(&self) -> (p: PosVector)
        ensures
            p == spec_shape_position(*self),
    {
        match self {
            ShapeKind::Sphere(sp) => sp.get_position(),
            ShapeKind::Plane(pl) => pl.get_position(),
            ShapeKind::Triangle(tr) => tr.get_position(),
        }
    }

    /// The nearest forward hit of a ray against this shape, or no hit.
    pub fn intersect(&self, ray: &Ray) -> (r: IntersectionInfo)
        ensures
            r == spec_shape_intersect(*self, *ray),
    {
        match self {
            ShapeKind::Sphere(sp) => sp.intersect(ray),
            ShapeKind::Plane(pl) => pl.intersect(ray),
            ShapeKind::Triangle(tr) => tr.intersect(ray),
        }
    }

    pub fn get_material(&self) -> (m: SceneMaterial)
        ensures
            m == spec_shape_material(*self),
    {
        match self {
            ShapeKind::Sphere(sp) => sp.get_material(),
            ShapeKind::Plane(pl) => pl.get_material(),
            ShapeKind::Triangle(tr) => tr.get_material(),
        }
    }

    /// The shape's extent along a cardinal axis.
    pub fn calculate_bounding_planes(&self, unit_vec: PosVector) -> (b: Bound)
        ensures
            b == spec_shape_bounding_planes(*self, unit_vec),
    {
        match self {
            ShapeKind::Sphere(sp) => sp.calculate_bounding_planes(unit_vec),
            ShapeKind::Plane(pl) => pl.calculate_bounding_planes(unit_vec),
            ShapeKind::Triangle(tr) => tr.calculate_bounding_planes(unit_vec),
        }
    }
}

/// What the per-axis bound of any shape is.
pub open spec fn spec_shape_bounding_planes(s: ShapeKind, unit_vec: PosVector) -> Bound {
    match s {
        ShapeKind::Sphere(sp) => Bound {
            min: fx_sub_spec(
                spec_pv_dot(unit_vec, sp.position) as int,
                sp.radius as int,
            ) as i64,
            max: fx_add_spec(
                spec_pv_dot(unit_vec, sp.position) as int,
                sp.radius as int,
            ) as i64,
        },
        ShapeKind::Plane(_pl) => Bound { min: FX_ONE, max: FX_ONE },
        ShapeKind::Triangle(tr) => {
            let da = spec_pv_dot(unit_vec, tr.va);
            let db = spec_pv_dot(unit_vec, tr.vb);
            let dc = spec_pv_dot(unit_vec, tr.vc);
            Bound { min: spec_min3(da, db, dc), max: spec_max3(da, db, dc) }
        },
    }
}

/// The least of three scalars.
pub open spec fn spec_min3(a: i64, b: i64, c: i64) -> i64 {
    let ab = if a < b {
        a
    } else {
        b
    };
    if ab < c {
        ab
    } else {
        c
    }
}

/// The greatest of three scalars.
pub open spec fn spec_max3(a: i64, b: i64, c: i64) -> i64 {
    let ab = if a > b {
        a
    } else {
        b
    };
    if ab > c {
        ab
    } else {
        c
    }
}

} // verus!

use crate::fixed::FX_TWO;

verus! {

/// An axis-aligned bounding box: the two opposite corners.
#[derive(Debug, Clone, Copy, PartialEq, Eq, Structural)]
pub struct BoundingBox {
    pub boxmin: PosVector,
    pub boxmax: PosVector,
}

/// The componentwise inverse of a direction, zero components left zero.
pub open spec fn spec_invert_direction(v: PosVector) -> PosVector {
    PosVector {
        x: if v.x == 0 {
            0
        } else {
            fx_div_spec(FX_ONE as int, v.x as int) as i64
        },
        y: if v.y == 0 {
            0
        } else {
            fx_div_spec(FX_ONE as int, v.y as int) as i64
        },
        z: if v.z == 0 {
            0
        } else {
            fx_div_spec(FX_ONE as int, v.z as int) as i64
        },
    }
}

/// Whether a ray can meet the box at all along one axis: a direction
/// component of zero demands that the origin already lie between the two
/// walls of that axis.
pub open spec fn spec_axis_possible(dir_c: i64, pos_c: i64, min_c: i64, max_c: i64) -> bool {
    if dir_c == 0 {
        !(pos_c < min_c || pos_c > max_c)
    } else {
        true
    }
}

/// The parameter at which a ray crosses one wall of an axis slab.
pub open spec fn spec_slab_dist(wall: i64, pos_c: i64, inv_c: i64) -> i64 {
    fx_mul_spec(fx_sub_spec(wall as int, pos_c as int), inv_c as int) as i64
}

/// The entry and exit parameters of a ray through one axis slab, walls
/// ordered by the sign of the direction component; a zero component spans
/// everything.
pub open spec fn spec_axis_enter_exit(dir_c: i64, inv_c: i64, pos_c: i64, min_c: i64,
    max_c: i64) -> (i64, i64) {
    if dir_c == 0 {
        (sat64(-(FX_NO_HIT as int)) as i64, FX_NO_HIT)
    } else if dir_c > 0 {
        (spec_slab_dist(min_c, pos_c, inv_c), spec_slab_dist(max_c, pos_c, inv_c))
    } else {
        (spec_slab_dist(max_c, pos_c, inv_c), spec_slab_dist(min_c, pos_c, inv_c))
    }
}

/// What the slab test returns: the ray meets the box exactly when the
/// latest entry over the three axes does not come after the earliest
/// exit, and the exit is not behind the origin.
pub open spec fn spec_box_ray_intersects(bb: BoundingBox, ray: Ray) -> bool {
    let dir = ray.direction;
    let pos = ray.position;
    let inv = spec_invert_direction(dir);
    if spec_axis_possible(dir.x, pos.x, bb.boxmin.x, bb.boxmax.x) || spec_axis_possible(
        dir.y,
        pos.y,
        bb.boxmin.y,
        bb.boxmax.y,
    ) || spec_axis_possible(dir.z, pos.z, bb.boxmin.z, bb.boxmax.z) {
        let ex = spec_axis_enter_exit(dir.x, inv.x, pos.x, bb.boxmin.x, bb.boxmax.x);
        let ey = spec_axis_enter_exit(dir.y, inv.y, pos.y, bb.boxmin.y, bb.boxmax.y);
        let ez = spec_axis_enter_exit(dir.z, inv.z, pos.z, bb.boxmin.z, bb.boxmax.z);
        let enter_xy = if dir.y != 0 && ex.0 < ey.0 {
            ey.0
        } else {
            ex.0
        };
        let exit_xy = if dir.y != 0 && ex.1 > ey.1 {
            ey.1
        } else {
            ex.1
        };
        let enter = if dir.z != 0 && enter_xy < ez.0 {
            ez.0
        } else {
            enter_xy
        };
        let exit = if dir.z != 0 && exit_xy > ez.1 {
            ez.1
        } else {
            exit_xy
        };
        !(exit < enter || exit < 0)
    } else {
        false
    }
}

/// The box that records a shape's extent along the three cardinal axes.
pub open spec fn spec_bbox_from_shape(shape: ShapeKind) -> BoundingBox {
    let bx = spec_shape_bounding_planes(shape, PosVector { x: FX_ONE, y: 0, z: 0 });
    let by = spec_shape_bounding_planes(shape, PosVector { x: 0, y: FX_ONE, z: 0 });
    let bz = spec_shape_bounding_planes(shape, PosVector { x: 0, y: 0, z: FX_ONE });
    BoundingBox {
        boxmin: PosVector { x: bx.min, y: by.min, z: bz.min },
        boxmax: PosVector { x: bx.max, y: by.max, z: bz.max },
    }
}

impl BoundingBox {
    /// The box that records a shape's extent along the three cardinal
    /// axes.
    pub fn from_shape(shape: &ShapeKind) -> (bb: BoundingBox)
        ensures
            bb == spec_bbox_from_shape(*shape),
    {
        BoundingBox::new(
            shape.calculate_bounding_planes(PosVector::new_unit_x()),
            shape.calculate_bounding_planes(PosVector::new_unit_y()),
            shape.calculate_bounding_planes(PosVector::new_unit_z()),
        )
    }

    /// A box from one bound per axis.
    pub fn new(bounding_x: Bound, bounding_y: Bound, bounding_z: Bound) -> (bb: BoundingBox)
        ensures
            bb == (BoundingBox {
                boxmin: PosVector { x: bounding_x.min, y: bounding_y.min, z: bounding_z.min },
                boxmax: PosVector { x: bounding_x.max, y: bounding_y.max, z: bounding_z.max },
            }),
    {
        BoundingBox {
            boxmin: PosVector::new(bounding_x.min, bounding_y.min, bounding_z.min),
            boxmax: PosVector::new(bounding_x.max, bounding_y.max, bounding_z.max),
        }
    }

    /// The union of two boxes: on every axis the smaller minimum and the
    /// larger maximum, so the result encloses both.
    pub fn get_enlarged_to_enclose(&self, other: &BoundingBox) -> (bb: BoundingBox)
        ensures
            bb.boxmin.x == if self.boxmin.x < other.boxmin.x {
                self.boxmin.x
            } else {
                other.boxmin.x
            },
            bb.boxmin.y == if self.boxmin.y < other.boxmin.y {
                self.boxmin.y
            } else {
                other.boxmin.y
            },
            bb.boxmin.z == if self.boxmin.z < other.boxmin.z {
                self.boxmin.z
            } else {
                other.boxmin.z
            },
            bb.boxmax.x == if self.boxmax.x > other.boxmax.x {
                self.boxmax.x
            } else {
                other.boxmax.x
            },
            bb.boxmax.y == if self.boxmax.y > other.boxmax.y {
                self.boxmax.y
            } else {
                other.boxmax.y
            },
            bb.boxmax.z == if self.boxmax.z > other.boxmax.z {
                self.boxmax.z
            } else {
                other.boxmax.z
            },
    {
        BoundingBox::new(
            Bound::new(
                fx_min(self.boxmin.x, other.boxmin.x),
                fx_max(self.boxmax.x, other.boxmax.x),
            ),
            Bound::new(
                fx_min(self.boxmin.y, other.boxmin.y),
                fx_max(self.boxmax.y, other.boxmax.y),
            ),
            Bound::new(
                fx_min(self.boxmin.z, other.boxmin.z),
                fx_max(self.boxmax.z, other.boxmax.z),
            ),
        )
    }

    pub fn get_box_min(&self) -> (p: PosVector)
        ensures
            p == self.boxmin,
    {
        self.boxmin
    }

    pub fn get_box_max(&self) -> (p: PosVector)
        ensures
            p == self.boxmax,
    {
        self.boxmax
    }

    /// Whether the minimum corner lies at or below the maximum on every
    /// axis.
    pub fn is_well_formed(&self) -> (r: bool)
        ensures
            r == (self.boxmin.x <= self.boxmax.x && self.boxmin.y <= self.boxmax.y
                && self.boxmin.z <= self.boxmax.z),
    {
        self.boxmin.x <= self.boxmax.x && self.boxmin.y <= self.boxmax.y && self.boxmin.z
            <= self.boxmax.z
    }

    /// Whether the box encloses nothing.
    pub fn is_empty(&self) -> (r: bool)
        ensures
            r == (self.boxmax.x < self.boxmin.x || self.boxmax.y < self.boxmin.y || self.boxmax.z
                < self.boxmin.z),
    {
        self.boxmax.x < self.boxmin.x || self.boxmax.y < self.boxmin.y || self.boxmax.z
            < self.boxmin.z
    }

    /// Twice the sum of the three pairwise face areas.
    pub fn get_surface_area(&self) -> (r: i64)
        ensures
            ({
                let delta = spec_pv_sub(self.boxmax, self.boxmin);
                r as int == fx_mul_spec(
                    fx_add_spec(
                        fx_add_spec(
                            fx_mul_spec(delta.x as int, delta.y as int),
                            fx_mul_spec(delta.x as int, delta.z as int),
                        ),
                        fx_mul_spec(delta.y as int, delta.z as int),
                    ),
                    FX_TWO as int,
                )
            }),
    {
        let delta = self.boxmax.subtract(self.boxmin);
        fx_mul(
            fx_add(fx_add(fx_mul(delta.x, delta.y), fx_mul(delta.x, delta.z)),
                fx_mul(delta.y, delta.z)),
            FX_TWO,
        )
    }

    /// The componentwise inverse of a direction, zero components left
    /// zero.
    fn invert_posvector(&self, posvec: PosVector) -> (r: PosVector)
        ensures
            r == spec_invert_direction(posvec),
    {
        let x = if posvec.x == 0 {
            0
        } else {
            fx_div(FX_ONE, posvec.x)
        };
        let y = if posvec.y == 0 {
            0
        } else {
            fx_div(FX_ONE, posvec.y)
        };
        let z = if posvec.z == 0 {
            0
        } else {
            fx_div(FX_ONE, posvec.z)
        };
        PosVector::new(x, y, z)
    }

    /// The slab test: whether the ray meets the box.
    pub fn get_ray_intersects(&self, ray: &Ray) -> (r: bool)
        ensures
            r == spec_box_ray_intersects(*self, *ray),
    {
        let dir = ray.get_direction();
        let pos = ray.get_position();
        let dir_inv = self.invert_posvector(dir);

        let possible_x = if dir.x == 0 {
            !(pos.x < self.boxmin.x || pos.x > self.boxmax.x)
        } else {
            true
        };
        let possible_y = if dir.y == 0 {
            !(pos.y < self.boxmin.y || pos.y > self.boxmax.y)
        } else {
            true
        };
        let possible_z = if dir.z == 0 {
            !(pos.z < self.boxmin.z || pos.z > self.boxmax.z)
        } else {
            true
        };

        if possible_x || possible_y || possible_z {
            let mut max_enter_dist: i64 = 0;
            let mut min_exit_dist: i64 = 0;

            if dir.x == 0 {
                max_enter_dist = fx_neg(FX_NO_HIT);
                min_exit_dist = FX_NO_HIT;
            } else {
                let mx = if dir.x > 0 {
                    self.boxmax.x
                } else {
                    self.boxmin.x
                };
                let mn = if dir.x > 0 {
                    self.boxmin.x
                } else {
                    self.boxmax.x
                };
                max_enter_dist = fx_mul(fx_sub(mn, pos.x), dir_inv.x);
                min_exit_dist = fx_mul(fx_sub(mx, pos.x), dir_inv.x);
            }

            if dir.y != 0 {
                let mx = if dir.y > 0 {
                    self.boxmax.y
                } else {
                    self.boxmin.y
                };
                let mn = if dir.y > 0 {
                    self.boxmin.y
                } else {
                    self.boxmax.y
                };
                let new_enter_dist = fx_mul(fx_sub(mn, pos.y), dir_inv.y);
                let new_exit_dist = fx_mul(fx_sub(mx, pos.y), dir_inv.y);
                if max_enter_dist < new_enter_dist {
                    max_enter_dist = new_enter_dist;
                }
                if min_exit_dist > new_exit_dist {
                    min_exit_dist = new_exit_dist;
                }
            }

            if dir.z != 0 {
                let mx = if dir.z > 0 {
                    self.boxmax.z
                } else {
                    self.boxmin.z
                };
                let mn = if dir.z > 0 {
                    self.boxmin.z
                } else {
                    self.boxmax.z
                };
                let new_enter_dist = fx_mul(fx_sub(mn, pos.z), dir_inv.z);
                let new_exit_dist = fx_mul(fx_sub(mx, pos.z), dir_inv.z);
                if max_enter_dist < new_enter_dist {
                    max_enter_dist = new_enter_dist;
                }
                if min_exit_dist > new_exit_dist {
                    min_exit_dist = new_exit_dist;
                }
            }

            if min_exit_dist < max_enter_dist || min_exit_dist < 0 {
                false
            } else {
                true
            }
        } else {
            false
        }
    }
}

} // verus!

use crate::fixed::div_to_zero;
use crate::fixed::fx_abs;
use crate::fixed::lemma_sqrt_trunc_square;
use crate::fixed::sqrt_floor;
use vstd::arithmetic::div_mod::lemma_div_is_ordered;
use vstd::arithmetic::div_mod::lemma_div_is_ordered_by_denominator;
use vstd::arithmetic::div_mod::lemma_fundamental_div_mod;
use vstd::arithmetic::div_mod::lemma_div_multiples_vanish;
use vstd::arithmetic::div_mod::lemma_div_pos_is_pos;

verus! {

/// A ray that runs parallel to a plane never hits it: a zero dot product
/// between the plane normal and the ray direction reports no hit.
pub proof fn lemma_plane_parallel_ray_misses(p: PlaneShape, ray: Ray)
    requires
        spec_pv_dot(p.position, ray.direction) == 0,
    ensures
        !spec_plane_intersect(p, ray).is_hit,
{
}

/// A sphere at the origin, seen along the axis from outside, is hit at
/// the distance to its near surface: for a ray from `(0, 0, d)` in the
/// direction `(0, 0, -1)`, the reported distance is `d - r`, the hit
/// point `(0, 0, r)` and the surface normal `(0, 0, 1)`, each up to a
/// couple of quanta of truncation in the square roots.  The radius must
/// be at least half a unit for the truncated square to keep its root.
pub proof fn lemma_sphere_axial_hit(s: SphereShape, ray: Ray, r: i64, d: i64)
    requires
        32770 <= r,
        r < d,
        d <= 274877906944i64,
        s.position == (PosVector { x: 0i64, y: 0i64, z: 0i64 }),
        s.radius == r,
        ray.position == (PosVector { x: 0i64, y: 0i64, z: d }),
        ray.direction == (PosVector { x: 0i64, y: 0i64, z: -65536i64 }),
    ensures
        spec_sphere_intersect(s, ray).is_hit,
        d - r <= spec_sphere_intersect(s, ray).distance,
        spec_sphere_intersect(s, ray).distance <= d - r + 1,
        spec_sphere_intersect(s, ray).position.x == 0,
        spec_sphere_intersect(s, ray).position.y == 0,
        r - 1 <= spec_sphere_intersect(s, ray).position.z,
        spec_sphere_intersect(s, ray).position.z <= r,
        spec_sphere_intersect(s, ray).normal.x == 0,
        spec_sphere_intersect(s, ray).normal.y == 0,
        65536 <= spec_sphere_intersect(s, ray).normal.z,
        spec_sphere_intersect(s, ray).normal.z <= 65538,
{
    let di = d as int;
    let ri = r as int;

    // the offset of the ray origin from the center
    let dst = spec_pv_sub(ray.position, s.position);
    assert(dst == (PosVector { x: 0i64, y: 0i64, z: d }));

    // the projection of the offset onto the direction is minus d
    assert(di * 65536int >= 0) by (nonlinear_arith)
        requires
            di >= 0,
    ;
    assert(fx_abs(di * (-65536int)) == di * 65536int) by (nonlinear_arith)
        requires
            di >= 0,
    ;
    lemma_div_multiples_vanish(di, 65536int);
    assert(65536int * di == di * 65536int) by (nonlinear_arith);
    assert(div_to_zero(di * (-65536int), 65536int) == -di);
    assert(fx_mul_spec(di, -65536int) == -di);
    assert(fx_mul_spec(0, 0) == 0);
    let b = spec_pv_dot(dst, ray.direction) as int;
    assert(b == -di);

    // the squared offset and squared radius, descaled
    assert(di * di >= 0) by (nonlinear_arith)
        requires
            di >= 0,
    ;
    assert(ri * ri >= 0) by (nonlinear_arith)
        requires
            ri >= 0,
    ;
    assert(di * di <= 274877906944int * 274877906944int) by (nonlinear_arith)
        requires
            0 <= di <= 274877906944int,
    ;
    lemma_div_multiples_vanish(1152921504606846976int, 65536int);
    assert(274877906944int * 274877906944int == 65536int * 1152921504606846976int)
        by (nonlinear_arith);
    lemma_div_is_ordered(di * di, 274877906944int * 274877906944int, 65536int);
    lemma_div_pos_is_pos(di * di, 65536int);
    lemma_div_pos_is_pos(ri * ri, 65536int);
    let ad = (di * di) / 65536int;
    let ar = (ri * ri) / 65536int;
    assert(fx_mul_spec(di, di) == ad);
    assert(ri * ri <= di * di) by (nonlinear_arith)
        requires
            0 <= ri < di,
    ;
    lemma_div_is_ordered(ri * ri, di * di, 65536int);
    assert(ar <= ad);
    assert(fx_mul_spec(ri, ri) == ar);
    assert(spec_pv_dot(dst, dst) as int == ad);
    let c = fx_sub_spec(ad, ar);
    assert(c == ad - ar);

    // the discriminant collapses to the descaled squared radius
    assert(fx_mul_spec(-di, -di) == ad) by {
        assert((-di) * (-di) == di * di) by (nonlinear_arith);
    }
    assert(32769int * 32769int <= ri * ri) by (nonlinear_arith)
        requires
            ri >= 32769,
    ;
    lemma_div_is_ordered(32769int * 32769int, ri * ri, 65536int);
    assert(32769int * 32769int == 65536int * 16385int + 1) by (nonlinear_arith);
    vstd::arithmetic::div_mod::lemma_fundamental_div_mod_converse(
        32769int * 32769int,
        65536int,
        16385int,
        1int,
    );
    assert(ar >= 16385);
    let disc = fx_sub_spec(fx_mul_spec(b, b), c);
    assert(disc == ar);
    assert(disc > 0);
    assert(spec_sphere_intersect(s, ray).is_hit);

    // the root of the discriminant is the radius, up to one quantum
    lemma_sqrt_trunc_square(ri);
    let sq = fx_sqrt_spec(ar);
    assert(sq == sqrt_floor(ar * 65536int));
    assert(ri - 1 <= sq <= ri);

    // the reported distance is minus b less the root
    let dist = spec_sphere_intersect(s, ray).distance as int;
    assert(dist == fx_sub_spec(sat64(-b), sq));
    assert(dist == di - sq);
    assert(di - ri <= dist <= di - ri + 1);

    // the hit point stands on the axis at the near surface
    let hp = spec_sphere_intersect(s, ray).position;
    assert(fx_mul_spec(-65536int, dist) == -dist) by {
        assert(dist * 65536int >= 0) by (nonlinear_arith)
            requires
                dist >= 0,
        ;
        assert(fx_abs((-65536int) * dist) == dist * 65536int) by (nonlinear_arith)
            requires
                dist >= 0,
        ;
        lemma_div_multiples_vanish(dist, 65536int);
        assert(65536int * dist == dist * 65536int) by (nonlinear_arith);
    }
    assert(hp.x == 0 && hp.y == 0);
    let pz = hp.z as int;
    assert(pz == di - dist);
    assert(ri - 1 <= pz <= ri);

    // the normal is the axis hit point normalized: the unit axis vector
    assert(pz * pz >= 0) by (nonlinear_arith)
        requires
            pz >= 0,
    ;
    assert(pz * pz <= 274877906944int * 274877906944int) by (nonlinear_arith)
        requires
            0 <= pz <= 274877906944int,
    ;
    lemma_div_is_ordered(pz * pz, 274877906944int * 274877906944int, 65536int);
    lemma_div_pos_is_pos(pz * pz, 65536int);
    let msq = (pz * pz) / 65536int;
    assert(fx_mul_spec(pz, pz) == msq);
    assert(32769int * 32769int <= pz * pz) by (nonlinear_arith)
        requires
            pz >= 32769,
    ;
    lemma_div_is_ordered(32769int * 32769int, pz * pz, 65536int);
    assert(msq >= 16385);
    lemma_sqrt_trunc_square(pz);
    let m = fx_sqrt_spec(msq);
    assert(m == sqrt_floor(msq * 65536int));
    assert(pz - 1 <= m <= pz);
    assert(m > 0);

    let offset = spec_pv_sub(hp, s.position);
    assert(offset == hp);
    let nrm = spec_sphere_intersect(s, ray).normal;
    assert(nrm == spec_pv_normalize(hp));
    assert(fx_div_spec(0, m) == 0);
    assert(nrm.x == 0 && nrm.y == 0);
    let zs = pz * 65536int;
    assert(pz * 65536int >= 0) by (nonlinear_arith)
        requires
            pz >= 0,
    ;
    let q = zs / m;
    assert(fx_abs(zs) == zs && fx_abs(m) == m);
    assert(div_to_zero(zs, m) == q);
    lemma_div_is_ordered_by_denominator(zs, m, pz);
    lemma_div_multiples_vanish(65536int, pz);
    assert(pz * 65536int == pz * 65536int);
    assert(zs / pz == 65536int);
    assert(q >= 65536);
    assert(zs < (65536int + 3) * m) by (nonlinear_arith)
        requires
            m >= pz - 1,
            pz >= 32769,
            zs == pz * 65536int,
    ;
    lemma_fundamental_div_mod(zs, m);
    assert(q < 65536int + 3) by (nonlinear_arith)
        requires
            zs == m * q + zs % m,
            0 <= zs % m < m,
            zs < (65536int + 3) * m,
            m > 0,
    ;
    assert(nrm.z as int == q);
    assert(65536 <= nrm.z as int <= 65538);
}

} // verus!

verus! {

/// Whether a shape is a triangle whose precomputed normal is zero: the
/// degenerate case collinear vertices leave behind.
pub open spec fn spec_degenerate_triangle(sk: ShapeKind) -> bool {
    match sk {
        ShapeKind::Triangle(tr) => tr.normal == (PosVector { x: 0i64, y: 0i64, z: 0i64 }),
        ShapeKind::Sphere(_) => false,
        ShapeKind::Plane(_) => false,
    }
}

/// A degenerate triangle never reports a hit: with a zero normal the
/// facing test degenerates and the plane-level rejection always fires,
/// so no ray can reach the barycentric stage.  This is the library's
/// compile-time policy for collinear vertices: such a triangle is
/// harmless rather than filtered, keeping scene ids stable.
pub proof fn lemma_degenerate_triangle_never_hits(t: TriangleShape, ray: Ray)
    requires
        t.normal == (PosVector { x: 0i64, y: 0i64, z: 0i64 }),
    ensures
        !spec_triangle_intersect(t, ray).is_hit,
{
    let mdotn = spec_pv_dot(ray.direction, t.normal);
    assert(fx_mul_spec(ray.direction.x as int, 0) == 0);
    assert(fx_mul_spec(ray.direction.y as int, 0) == 0);
    assert(fx_mul_spec(ray.direction.z as int, 0) == 0);
    assert(mdotn == 0);
    assert(fx_mul_spec(sat64(-(FX_NO_HIT as int)), 0) == 0);
    assert(spec_triangle_plane_reject(t, ray));
}

} // verus!
