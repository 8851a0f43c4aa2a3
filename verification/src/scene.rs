//! The compiled scene: shapes and lights under stable integer ids.
//!
//! Ids are assigned sequentially from one in insertion order; id zero is
//! the sentinel that means "no shape", used both for "exclude nothing"
//! and for "nothing was hit".

use vstd::prelude::*;

use crate::camera::Ray;
use crate::color::ColorVector;
use crate::fixed::FX_ONE;
use crate::light::PointLight;
use crate::material::BaseMaterial;
use crate::material::ChessboardMaterial;
use crate::material::SceneMaterial;
use crate::material::SolidMaterial;
use crate::posvector::PosVector;
use crate::shapes::BoundingBox;
use crate::shapes::PlaneShape;
use crate::shapes::ShapeKind;
use crate::shapes::SphereShape;
use crate::shapes::lemma_degenerate_triangle_never_hits;
use crate::shapes::spec_bbox_from_shape;
use crate::shapes::spec_degenerate_triangle;
use crate::shapes::spec_shape_intersect;
use crate::shapes::spec_shape_material;
use crate::shapes::spec_shape_position;
use crate::tracer::IntersectionInfo;

verus! {

/// The color seen where no shape is hit, and the ambient term added at
/// every hit.
#[derive(Debug, Clone, Copy, PartialEq, Eq, Structural)]
pub struct Background {
    pub color: ColorVector,
    pub ambience: i64,
}

impl Background {
    pub fn new(color: ColorVector, ambience: i64) -> (b: Background)
        ensures
            b == (Background { color, ambience }),
    {
        Background { color, ambience }
    }
}

/// A shape with its scene id and precomputed bounding box.
#[derive(Debug, Clone, Copy, PartialEq, Eq, Structural)]
pub struct CompiledShape {
    pub shape: ShapeKind,
    pub id: u32,
    pub bbox: BoundingBox,
}

/// What compiling one shape yields.
pub open spec fn spec_compile_shape(shape: ShapeKind, id: u32) -> CompiledShape {
    CompiledShape { shape, id, bbox: spec_bbox_from_shape(shape) }
}

/// What a compiled shape's intersection returns: the shape's own
/// intersection, stamped with the compiled id.
pub open spec fn spec_compiled_intersect(cs: CompiledShape, ray: Ray) -> IntersectionInfo {
    IntersectionInfo { element_id: cs.id, ..spec_shape_intersect(cs.shape, ray) }
}

impl CompiledShape {
    /// Wrap a shape under its scene id, computing its bounding box.
    pub fn new(shape: ShapeKind, id: u32) -> (cs: CompiledShape)
        ensures
            cs == spec_compile_shape(shape, id),
    {
        let bbox = BoundingBox::from_shape(&shape);
        CompiledShape { shape, id, bbox }
    }

    pub fn get_position(&self) -> (p: PosVector)
        ensures
            p == spec_shape_position(self.shape),
    {
        self.shape.get_position()
    }

    /// The shape's intersection, stamped with this id.
    pub fn intersect(&self, ray: &Ray) -> (r: IntersectionInfo)
        ensures
            r == spec_compiled_intersect(*self, *ray),
    {
        let mut intersect_info = self.shape.intersect(ray);
        intersect_info.element_id = self.get_id();
        intersect_info
    }

    pub fn get_material(&self) -> (m: SceneMaterial)
        ensures
            m == spec_shape_material(self.shape),
    {
        self.shape.get_material()
    }

    pub fn get_id(&self) -> (id: u32)
        ensures
            id == self.id,
    {
        self.id
    }

    pub fn get_bounding_box(&self) -> (bb: BoundingBox)
        ensures
            bb == self.bbox,
    {
        self.bbox
    }
}

/// A light with its scene id.
#[derive(Debug, Clone, Copy, PartialEq, Eq, Structural)]
pub struct CompiledLight {
    pub light: PointLight,
    pub id: u32,
}

impl CompiledLight {
    pub fn new(light: PointLight, id: u32) -> (cl: CompiledLight)
        ensures
            cl == (CompiledLight { light, id }),
    {
        CompiledLight { light, id }
    }

    pub fn get_position(&self) -> (p: PosVector)
        ensures
            p == self.light.position,
    {
        self.light.get_position()
    }

    pub fn get_color(&self) -> (c: ColorVector)
        ensures
            c == self.light.color,
    {
        self.light.get_color()
    }
}

/// A compiled scene: a background, and shapes and lights indexed by id.
/// The shape with id `i` stands at position `i - 1`, so lookup by id is
/// constant time.
#[derive(Debug)]
pub struct Scene {
    pub background: Background,
    pub shapes: Vec<CompiledShape>,
    pub lights: Vec<CompiledLight>,
}

/// A scene is well formed when every shape and light carries the id of
/// its position plus one, and every bounding box records its shape.
pub open spec fn spec_scene_wf(s: Scene) -> bool {
    &&& s.shapes@.len() < u32::MAX as int
    &&& s.lights@.len() < u32::MAX as int
    &&& forall|i: int|
        0 <= i < s.shapes@.len() ==> #[trigger] s.shapes@[i] == spec_compile_shape(
            s.shapes@[i].shape,
            (i + 1) as u32,
        )
    &&& forall|i: int|
        0 <= i < s.lights@.len() ==> #[trigger] s.lights@[i].id == (i + 1) as u32
}

impl Scene {
    /// Compile raw shape and light lists: assign sequential ids from one
    /// in insertion order and precompute every bounding box.
    pub fn new(background: Background, shapes: Vec<ShapeKind>, lights: Vec<PointLight>) -> (s:
        Scene)
        requires
            shapes@.len() < u32::MAX as int,
            lights@.len() < u32::MAX as int,
        ensures
            spec_scene_wf(s),
            s.background == background,
            s.shapes@.len() == shapes@.len(),
            s.lights@.len() == lights@.len(),
            forall|i: int|
                0 <= i < shapes@.len() ==> #[trigger] s.shapes@[i] == spec_compile_shape(
                    shapes@[i],
                    (i + 1) as u32,
                ),
            forall|i: int|
                0 <= i < lights@.len() ==> #[trigger] s.lights@[i] == (CompiledLight {
                    light: lights@[i],
                    id: (i + 1) as u32,
                }),
            forall|i: int, ray: Ray|
                0 <= i < s.shapes@.len() && spec_degenerate_triangle(s.shapes@[i].shape)
                    ==> !(#[trigger] spec_compiled_intersect(s.shapes@[i], ray)).is_hit,
    {
        let mut compiled_shapes: Vec<CompiledShape> = Vec::new();
        let mut compiled_lights: Vec<CompiledLight> = Vec::new();

        let mut idx: usize = 0;
        while idx < shapes.len()
            invariant
                idx <= shapes@.len(),
                shapes@.len() < u32::MAX as int,
                compiled_shapes@.len() == idx as int,
                forall|i: int|
                    0 <= i < idx as int ==> #[trigger] compiled_shapes@[i] == spec_compile_shape(
                        shapes@[i],
                        (i + 1) as u32,
                    ),
            decreases shapes@.len() - idx,
        {
            let id = (idx as u32) + 1;
            compiled_shapes.push(CompiledShape::new(shapes[idx], id));
            idx = idx + 1;
        }

        let mut lidx: usize = 0;
        while lidx < lights.len()
            invariant
                lidx <= lights@.len(),
                lights@.len() < u32::MAX as int,
                compiled_lights@.len() == lidx as int,
                forall|i: int|
                    0 <= i < lidx as int ==> #[trigger] compiled_lights@[i] == (CompiledLight {
                        light: lights@[i],
                        id: (i + 1) as u32,
                    }),
            decreases lights@.len() - lidx,
        {
            let id = (lidx as u32) + 1;
            compiled_lights.push(CompiledLight::new(lights[lidx], id));
            lidx = lidx + 1;
        }

        proof {
            assert forall|i: int, ray: Ray|
                0 <= i < compiled_shapes@.len() && spec_degenerate_triangle(
                    compiled_shapes@[i].shape,
                ) implies !(#[trigger] spec_compiled_intersect(
                compiled_shapes@[i],
                ray,
            )).is_hit by {
                let sk = compiled_shapes@[i].shape;
                lemma_degenerate_triangle_never_hits(sk->Triangle_0, ray);
            }
        }
        Scene { background, shapes: compiled_shapes, lights: compiled_lights }
    }

    /// The shape under an id, or nothing for id zero or one past the end.
    pub fn get_shape(&self, id: &u32) -> (r: Option<&CompiledShape>)
        ensures
            (1 <= *id && *id as int <= self.shapes@.len()) ==> r == Some(
                &self.shapes@[*id as int - 1],
            ),
            !(1 <= *id && *id as int <= self.shapes@.len()) ==> r is None,
    {
        let i = *id as usize;
        if 1 <= i && i <= self.shapes.len() {
            Some(&self.shapes[i - 1])
        } else {
            None
        }
    }

    /// The light under an id, or nothing for id zero or one past the end.
    pub fn get_light(&self, id: &u32) -> (r: Option<&CompiledLight>)
        ensures
            (1 <= *id && *id as int <= self.lights@.len()) ==> r == Some(
                &self.lights@[*id as int - 1],
            ),
            !(1 <= *id && *id as int <= self.lights@.len()) ==> r is None,
    {
        let i = *id as usize;
        if 1 <= i && i <= self.lights.len() {
            Some(&self.lights[i - 1])
        } else {
            None
        }
    }
}

} // verus!

use crate::fixed::div_to_zero;
use crate::fixed::fx_add;
use crate::fixed::fx_mul;
use crate::fixed::fx_mul_spec;
use crate::fixed::sat64;
use vstd::arithmetic::div_mod::lemma_div_is_ordered;
use vstd::arithmetic::div_mod::lemma_div_multiples_vanish;

verus! {

/// The six shapes of the demonstration scene, in declaration order:
/// three solid spheres, then the ground and two wall planes, every
/// material matte.
pub open spec fn spec_basic_scene_shapes() -> Seq<ShapeKind> {
    seq![
        ShapeKind::Sphere(SphereShape {
            position: PosVector { x: 163840, y: 327680, z: 65536 },
            radius: 49152,
            material: SceneMaterial::Solid(SolidMaterial {
                material: BaseMaterial { gloss: 0, reflection: 0, refraction: 0, transparency: 0 },
                color: ColorVector { r: 65536, g: 0, b: 65536 },
            }),
            id: 1,
        }),
        ShapeKind::Sphere(SphereShape {
            position: PosVector { x: 229376, y: 81920, z: 98304 },
            radius: 65536,
            material: SceneMaterial::Solid(SolidMaterial {
                material: BaseMaterial { gloss: 0, reflection: 0, refraction: 0, transparency: 0 },
                color: ColorVector { r: 65536, g: 65536, b: 0 },
            }),
            id: 2,
        }),
        ShapeKind::Sphere(SphereShape {
            position: PosVector { x: 131072, y: 196608, z: 65536 },
            radius: 65536,
            material: SceneMaterial::Solid(SolidMaterial {
                material: BaseMaterial { gloss: 0, reflection: 0, refraction: 0, transparency: 0 },
                color: ColorVector { r: 0, g: 65536, b: 65536 },
            }),
            id: 3,
        }),
        ShapeKind::Plane(PlaneShape {
            position: PosVector { x: 0, y: 0, z: 65536 },
            d_val: 0,
            material: SceneMaterial::Solid(SolidMaterial {
                material: BaseMaterial { gloss: 0, reflection: 0, refraction: 0, transparency: 0 },
                color: ColorVector { r: 0, g: 65536, b: 0 },
            }),
            id: 4,
        }),
        ShapeKind::Plane(PlaneShape {
            position: PosVector { x: 65536, y: 0, z: 0 },
            d_val: 0,
            material: SceneMaterial::Solid(SolidMaterial {
                material: BaseMaterial { gloss: 0, reflection: 0, refraction: 0, transparency: 0 },
                color: ColorVector { r: 0, g: 0, b: 65536 },
            }),
            id: 5,
        }),
        ShapeKind::Plane(PlaneShape {
            position: PosVector { x: 0, y: 65536, z: 0 },
            d_val: 0,
            material: SceneMaterial::Solid(SolidMaterial {
                material: BaseMaterial { gloss: 0, reflection: 0, refraction: 0, transparency: 0 },
                color: ColorVector { r: 65536, g: 0, b: 0 },
            }),
            id: 6,
        }),
    ]
}

/// A demonstration scene: three solid spheres over three solid planes,
/// lit by one white point light; every shape is pinned exactly.
pub fn new_basic_scene() -> (s: Scene)
    ensures
        spec_scene_wf(s),
        s.background == (Background { color: ColorVector { r: 0, g: 0, b: 0 }, ambience: 13107
            as i64 }),
        s.shapes@.len() == 6,
        forall|i: int|
            0 <= i < 6 ==> #[trigger] s.shapes@[i] == spec_compile_shape(
                spec_basic_scene_shapes()[i],
                (i + 1) as u32,
            ),
        s.lights@.len() == 1,
        s.lights@[0].light == (PointLight {
            position: PosVector { x: 6553600, y: 3932160, z: 2621440 },
            color: ColorVector { r: 65536, g: 65536, b: 65536 },
        }),
{
    let background = Background::new(ColorVector::new(0, 0, 0), 13107);

    let mut shapes: Vec<ShapeKind> = Vec::new();

    shapes.push(ShapeKind::Sphere(SphereShape {
        position: PosVector::new(163840, 327680, 65536),
        radius: 49152,
        material: SceneMaterial::Solid(
            SolidMaterial::new(0, 0, 0, 0, ColorVector::new(65536, 0, 65536)),
        ),
        id: 1,
    }));

    shapes.push(ShapeKind::Sphere(SphereShape {
        position: PosVector::new(229376, 81920, 98304),
        radius: 65536,
        material: SceneMaterial::Solid(
            SolidMaterial::new(0, 0, 0, 0, ColorVector::new(65536, 65536, 0)),
        ),
        id: 2,
    }));

    shapes.push(ShapeKind::Sphere(SphereShape {
        position: PosVector::new(131072, 196608, 65536),
        radius: 65536,
        material: SceneMaterial::Solid(
            SolidMaterial::new(0, 0, 0, 0, ColorVector::new(0, 65536, 65536)),
        ),
        id: 3,
    }));

    shapes.push(ShapeKind::Plane(PlaneShape {
        position: PosVector::new(0, 0, 65536),
        d_val: 0,
        material: SceneMaterial::Solid(
            SolidMaterial::new(0, 0, 0, 0, ColorVector::new(0, 65536, 0)),
        ),
        id: 4,
    }));

    shapes.push(ShapeKind::Plane(PlaneShape {
        position: PosVector::new(65536, 0, 0),
        d_val: 0,
        material: SceneMaterial::Solid(
            SolidMaterial::new(0, 0, 0, 0, ColorVector::new(0, 0, 65536)),
        ),
        id: 5,
    }));

    shapes.push(ShapeKind::Plane(PlaneShape {
        position: PosVector::new(0, 65536, 0),
        d_val: 0,
        material: SceneMaterial::Solid(
            SolidMaterial::new(0, 0, 0, 0, ColorVector::new(65536, 0, 0)),
        ),
        id: 6,
    }));

    let mut lights: Vec<PointLight> = Vec::new();
    lights.push(PointLight::new(
        PosVector::new(6553600, 3932160, 2621440),
        ColorVector::new(65536, 65536, 65536),
    ));

    proof {
        assert(shapes@ =~= spec_basic_scene_shapes());
    }
    Scene::new(background, shapes, lights)
}

/// A demonstration scene: rows of glossy spheres along the three axes,
/// optionally over a checkerboard plane, lit by two dim lights.
///
/// The increment must be positive and the furthest sphere must stay
/// inside the scalar range, which also bounds how many spheres fit.
pub fn new_marbles_scene(background_color: ColorVector, background_ambience: i64,
    sphere_radius: i64, sphere_distance_increment: i64, num_spheres_per_axis: i32,
    show_plane: bool, plane_pos: PosVector, plane_d_val: i64) -> (s: Scene)
    requires
        sphere_distance_increment > 0,
        num_spheres_per_axis >= 0,
        fx_mul_spec(
            sphere_distance_increment as int,
            num_spheres_per_axis as int * FX_ONE as int,
        ) < i64::MAX as int,
        3 * (div_to_zero(
            fx_mul_spec(
                sphere_distance_increment as int,
                num_spheres_per_axis as int * FX_ONE as int,
            ),
            sphere_distance_increment as int,
        ) + 1) + 1 < u32::MAX as int,
    ensures
        spec_scene_wf(s),
        s.background == (Background { color: background_color, ambience: background_ambience }),
        s.lights@.len() == 2,
{
    let background = Background::new(background_color, background_ambience);

    let blue_material = SolidMaterial::new(131072, 13107, 0, 0, ColorVector::new(0, 0, 58982));
    let red_material = SolidMaterial::new(131072, 13107, 0, 0, ColorVector::new(58982, 0, 0));
    let green_material = SolidMaterial::new(131072, 13107, 0, 0, ColorVector::new(0, 58982, 0));

    let num_fx = (num_spheres_per_axis as i64) * FX_ONE;
    let max_axis = fx_mul(sphere_distance_increment, num_fx);
    let ghost quota = div_to_zero(max_axis as int, sphere_distance_increment as int);
    proof {
        assert(quota >= 0);
    }

    let mut shapes: Vec<ShapeKind> = Vec::new();
    let mut id: u32 = 1;

    let mut x: i64 = 0;
    let ghost mut k: int = 0;
    while x <= max_axis
        invariant
            sphere_distance_increment > 0,
            max_axis < i64::MAX,
            quota == div_to_zero(max_axis as int, sphere_distance_increment as int),
            0 <= k,
            x as int == sat64(k * sphere_distance_increment as int),
            k == 0 || sat64((k - 1) * sphere_distance_increment as int) <= max_axis as int,
            shapes@.len() == k,
            id as int == shapes@.len() + 1,
            3 * (quota + 1) + 1 < u32::MAX as int,
            k <= quota + 1,
            forall|i: int| 0 <= i < shapes@.len() ==> #[trigger] shapes@[i] is Sphere,
        decreases quota + 1 - k,
    {
        proof {
            lemma_axis_steps_bounded(k, sphere_distance_increment as int, max_axis as int);
        }
        shapes.push(ShapeKind::Sphere(SphereShape {
            position: PosVector::new(x, 0, 0),
            radius: sphere_radius,
            material: SceneMaterial::Solid(red_material),
            id,
        }));
        let x_prev = x;
        x = fx_add(x, sphere_distance_increment);
        id = id + 1;
        proof {
            k = k + 1;
            assert((x_prev as int) < i64::MAX as int);
            assert((x as int) > x_prev as int);
        }
    }
    proof {
        if k > 0 {
            lemma_axis_steps_bounded(k - 1, sphere_distance_increment as int, max_axis as int);
        }
    }

    let mut y: i64 = 0;
    let ghost mut ky: int = 0;
    while y <= max_axis
        invariant
            sphere_distance_increment > 0,
            max_axis < i64::MAX,
            quota == div_to_zero(max_axis as int, sphere_distance_increment as int),
            0 <= ky,
            y as int == sat64(ky * sphere_distance_increment as int),
            ky == 0 || sat64((ky - 1) * sphere_distance_increment as int) <= max_axis as int,
            shapes@.len() <= quota + 1 + ky,
            id as int == shapes@.len() + 1,
            3 * (quota + 1) + 1 < u32::MAX as int,
            ky <= quota + 1,
            forall|i: int| 0 <= i < shapes@.len() ==> #[trigger] shapes@[i] is Sphere,
        decreases quota + 1 - ky,
    {
        proof {
            lemma_axis_steps_bounded(ky, sphere_distance_increment as int, max_axis as int);
        }
        shapes.push(ShapeKind::Sphere(SphereShape {
            position: PosVector::new(0, y, 0),
            radius: sphere_radius,
            material: SceneMaterial::Solid(green_material),
            id,
        }));
        let y_prev = y;
        y = fx_add(y, sphere_distance_increment);
        id = id + 1;
        proof {
            ky = ky + 1;
            assert((y_prev as int) < i64::MAX as int);
            assert((y as int) > y_prev as int);
        }
    }
    proof {
        if ky > 0 {
            lemma_axis_steps_bounded(ky - 1, sphere_distance_increment as int, max_axis as int);
        }
    }

    let mut z: i64 = 0;
    let ghost mut kz: int = 0;
    while z <= max_axis
        invariant
            sphere_distance_increment > 0,
            max_axis < i64::MAX,
            quota == div_to_zero(max_axis as int, sphere_distance_increment as int),
            0 <= kz,
            z as int == sat64(kz * sphere_distance_increment as int),
            kz == 0 || sat64((kz - 1) * sphere_distance_increment as int) <= max_axis as int,
            shapes@.len() <= 2 * (quota + 1) + kz,
            id as int == shapes@.len() + 1,
            3 * (quota + 1) + 1 < u32::MAX as int,
            kz <= quota + 1,
            forall|i: int| 0 <= i < shapes@.len() ==> #[trigger] shapes@[i] is Sphere,
        decreases quota + 1 - kz,
    {
        proof {
            lemma_axis_steps_bounded(kz, sphere_distance_increment as int, max_axis as int);
        }
        shapes.push(ShapeKind::Sphere(SphereShape {
            position: PosVector::new(0, 0, z),
            radius: sphere_radius,
            material: SceneMaterial::Solid(blue_material),
            id,
        }));
        let z_prev = z;
        z = fx_add(z, sphere_distance_increment);
        id = id + 1;
        proof {
            kz = kz + 1;
            assert((z_prev as int) < i64::MAX as int);
            assert((z as int) > z_prev as int);
        }
    }
    proof {
        if kz > 0 {
            lemma_axis_steps_bounded(kz - 1, sphere_distance_increment as int, max_axis as int);
        }
    }

    let chess_mat = ChessboardMaterial {
        color_even: ColorVector::new(52428, 52428, 52428),
        color_odd: ColorVector::new(0, 0, 0),
        material: BaseMaterial { reflection: 13107, transparency: 0, gloss: 65536, refraction: 0 },
        scale: 983040,
    };

    if show_plane {
        shapes.push(ShapeKind::Plane(PlaneShape {
            position: plane_pos,
            d_val: plane_d_val,
            material: SceneMaterial::Chessboard(chess_mat),
            id,
        }));
    }

    let mut lights: Vec<PointLight> = Vec::new();
    lights.push(PointLight::new(
        PosVector::new(-327680, 655360, 655360),
        ColorVector::new(26214, 26214, 26214),
    ));

    lights.push(PointLight::new(
        PosVector::new(327680, 655360, 655360),
        ColorVector::new(26214, 26214, 26214),
    ));

    Scene::new(background, shapes, lights)
}

/// While stepping an axis by a positive increment, the step count stays
/// within the quota `max / inc`, so the sphere rows stay countable.
proof fn lemma_axis_steps_bounded(k: int, inc: int, max_axis: int)
    requires
        0 <= k,
        0 < inc,
        max_axis < i64::MAX as int,
        sat64(k * inc) <= max_axis,
    ensures
        k <= div_to_zero(max_axis, inc),
        sat64(k * inc) == k * inc,
        sat64((k + 1) * inc) == sat64(sat64(k * inc) + inc),
{
    assert(k * inc >= 0) by (nonlinear_arith)
        requires
            0 <= k && 0 < inc,
    ;
    assert(k * inc <= max_axis);
    if max_axis >= 0 {
        assert(div_to_zero(max_axis, inc) == max_axis / inc);
        lemma_div_is_ordered(k * inc, max_axis, inc);
        lemma_div_multiples_vanish(k, inc);
        assert(k * inc == inc * k) by (nonlinear_arith);
        assert(k <= max_axis / inc);
    }
    assert((k + 1) * inc == k * inc + inc) by (nonlinear_arith);
}

} // verus!
