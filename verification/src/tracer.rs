//! The ray tracer: intersection search and recursive shading.

use vstd::prelude::*;

use crate::color::ColorVector;
use crate::fixed::FX_NO_HIT;
use crate::posvector::PosVector;

verus! {

/// The outcome of testing a ray against a shape: whether it hit, how far
/// along the ray, where, with what surface normal and base color, and the
/// id of the shape that was hit (zero when none).
#[derive(Debug, Clone, Copy, PartialEq, Eq, Structural)]
pub struct IntersectionInfo {
    pub color: ColorVector,
    pub distance: i64,
    pub element_id: u32,
    pub is_hit: bool,
    pub normal: PosVector,
    pub position: PosVector,
}

/// The no-hit outcome: the distance sentinel exceeds every real hit, so
/// nearest-hit comparisons need no special case.
pub open spec fn spec_no_hit() -> IntersectionInfo {
    IntersectionInfo {
        color: ColorVector { r: 0, g: 0, b: 0 },
        distance: FX_NO_HIT,
        element_id: 0,
        is_hit: false,
        normal: PosVector { x: 0, y: 0, z: 0 },
        position: PosVector { x: 0, y: 0, z: 0 },
    }
}

impl IntersectionInfo {
    /// The outcome that reports no hit.
    pub fn new_default() -> (r: IntersectionInfo)
        ensures
            r == spec_no_hit(),
    {
        IntersectionInfo {
            color: ColorVector::new(0, 0, 0),
            distance: FX_NO_HIT,
            element_id: 0,
            is_hit: false,
            normal: PosVector::new_default(),
            position: PosVector::new_default(),
        }
    }

    /// A hit at `distance` with the given surface data; the shape id is
    /// filled in by the scene's compiled wrapper.
    pub fn new(color: ColorVector, distance: i64, normal: PosVector,
        position: PosVector) -> (r: IntersectionInfo)
        ensures
            r == (IntersectionInfo {
                color,
                distance,
                element_id: 0u32,
                is_hit: true,
                normal,
                position,
            }),
    {
        IntersectionInfo { color, distance, element_id: 0, is_hit: true, normal, position }
    }
}

/// A count of rays traced, kept by the render orchestration.
#[derive(Debug, Clone, Copy, PartialEq, Eq, Structural)]
pub struct RayTraceStatistics {
    pub num_rays_traced: u64,
}

impl RayTraceStatistics {
    pub fn new() -> (s: RayTraceStatistics)
        ensures
            s.num_rays_traced == 0,
    {
        RayTraceStatistics { num_rays_traced: 0 }
    }

    /// Record one more traced ray.
    pub fn add_ray_traced(&mut self)
        requires
            old(self).num_rays_traced < u64::MAX,
        ensures
            final(self).num_rays_traced == old(self).num_rays_traced + 1,
    {
        self.num_rays_traced = self.num_rays_traced + 1;
    }
}

} // verus!

use crate::camera::Camera;
use crate::camera::Ray;
use crate::camera::spec_camera_ray;
use crate::color::spec_cv_add;
use crate::color::spec_cv_blend;
use crate::color::spec_cv_multiply;
use crate::color::spec_cv_scale;
use crate::fixed::FX_HALF;
use crate::fixed::FX_ONE;
use crate::fixed::FX_TWO;
use crate::fixed::fx_add;
use crate::fixed::fx_add_spec;
use crate::fixed::fx_div;
use crate::fixed::fx_div_spec;
use crate::fixed::fx_mul;
use crate::fixed::fx_mul_spec;
use crate::fixed::fx_neg;
use crate::fixed::fx_sqrt;
use crate::fixed::fx_sqrt_spec;
use crate::fixed::fx_sub;
use crate::fixed::fx_sub_spec;
use crate::fixed::sat64;
use crate::material::spec_material_gloss;
use crate::material::spec_material_reflection;
use crate::material::spec_material_refraction;
use crate::material::spec_material_transparency;
use crate::posvector::spec_pv_add;
use crate::posvector::spec_pv_dot;
use crate::posvector::spec_pv_normalize;
use crate::posvector::spec_pv_scale;
use crate::posvector::spec_pv_sub;
use crate::renderer::RenderData;
use crate::scene::CompiledLight;
use crate::scene::CompiledShape;
use crate::scene::Scene;
use crate::scene::spec_compiled_intersect;
use crate::shapes::spec_shape_material;

verus! {

/// The ray tracer: a frozen camera, configuration and compiled scene,
/// turned into a pure function from pixel coordinates to colors.
#[derive(Debug)]
pub struct RayTracer {
    pub camera: Camera,
    pub render_data: RenderData,
    pub scene: Scene,
    pub use_kd_tree: bool,
    pub stats: RayTraceStatistics,
}

/// The nearest-hit scan from position `i` on, carrying the best outcome
/// so far: a shape is taken when it is not excluded, reports a hit, and
/// its distance is nonnegative and strictly nearer than the best.
pub open spec fn spec_scan_intersection(shapes: Seq<CompiledShape>, ray: Ray, exclude_id: u32,
    i: int, best: IntersectionInfo) -> IntersectionInfo
    decreases shapes.len() - i,
    when 0 <= i <= shapes.len()
{
    if i >= shapes.len() {
        best
    } else {
        let next = if shapes[i].id != exclude_id {
            let info = spec_compiled_intersect(shapes[i], ray);
            if info.is_hit && info.distance < best.distance && info.distance >= 0 {
                info
            } else {
                best
            }
        } else {
            best
        };
        spec_scan_intersection(shapes, ray, exclude_id, i + 1, next)
    }
}

/// What the intersection search returns: the nearest non-excluded hit
/// over the whole scene, or the no-hit outcome.  The spatial-index path
/// is a stub that finds nothing.
pub open spec fn spec_test_intersection(rt: RayTracer, ray: Ray,
    exclude_id: u32) -> IntersectionInfo {
    if rt.use_kd_tree {
        spec_no_hit()
    } else {
        spec_scan_intersection(rt.scene.shapes@, ray, exclude_id, 0, spec_no_hit())
    }
}

/// The mirror ray at a hit point: the incoming direction bent back
/// across the surface normal.
pub open spec fn spec_reflection_ray(p: crate::posvector::PosVector,
    n: crate::posvector::PosVector, v: crate::posvector::PosVector) -> Ray {
    let c1 = sat64(-(spec_pv_dot(n, v) as int)) as i64;
    Ray {
        position: p,
        direction: spec_pv_add(v, spec_pv_scale(spec_pv_scale(n, FX_TWO as int), c1 as int)),
    }
}

/// The refracted ray at a hit point, from the surface normal, the
/// incoming direction and the refractive index, by the Snell-style
/// vector construction the shader uses.
pub open spec fn spec_refraction_ray(p: crate::posvector::PosVector,
    n: crate::posvector::PosVector, v: crate::posvector::PosVector, refraction: i64) -> Ray {
    let c1 = spec_pv_dot(n, v);
    let root = fx_sqrt_spec(fx_sub_spec(FX_ONE as int, fx_mul_spec(c1 as int, c1 as int)));
    let c2 = fx_sub_spec(
        FX_ONE as int,
        fx_mul_spec(fx_mul_spec(refraction as int, refraction as int), root),
    );
    let t = spec_pv_normalize(
        spec_pv_scale(
            spec_pv_sub(
                spec_pv_scale(n, fx_sub_spec(fx_mul_spec(refraction as int, c1 as int), c2)),
                spec_pv_scale(v, refraction as int),
            ),
            sat64(-(FX_ONE as int)),
        ),
    );
    Ray { position: p, direction: t }
}

/// What the diffuse term adds: when enabled and the light stands above
/// the surface, the surface color times the light color, weighted by the
/// cosine between the normal and the direction to the light.
pub open spec fn spec_render_diffuse(rt: RayTracer, current: ColorVector,
    info: IntersectionInfo, light: CompiledLight) -> ColorVector {
    if rt.render_data.render_diffuse {
        let v = spec_pv_normalize(spec_pv_sub(light.light.position, info.position));
        let l = spec_pv_dot(v, info.normal);
        if l > 0 {
            spec_cv_add(
                current,
                spec_cv_scale(spec_cv_multiply(info.color, light.light.color), l as int),
            )
        } else {
            current
        }
    } else {
        current
    }
}

/// What the highlight term adds.  The gloss weighting here is
/// identically zero — a full Phong term is an open extension point — so
/// the probe contributes a zero-scaled light color: the accumulated
/// color comes back unchanged.
pub open spec fn spec_render_highlights(rt: RayTracer, current: ColorVector,
    elem: CompiledShape, shadow: IntersectionInfo, light: CompiledLight) -> ColorVector {
    if rt.render_data.render_highlights && !shadow.is_hit && spec_material_gloss(
        spec_shape_material(elem.shape),
    ) > 0 {
        spec_cv_add(current, spec_cv_scale(light.light.color, 0))
    } else {
        current
    }
}

/// What the shadow pass returns: a ray is cast from the hit point toward
/// the light, excluding the hit shape; when it strikes a different
/// shape, the accumulated color is attenuated by one half plus half the
/// square root of the occluder's transparency — an approximation, not a
/// physical transmittance law.  The highlight term follows.
pub open spec fn spec_render_shadow_and_highlights(rt: RayTracer, current: ColorVector,
    info: IntersectionInfo, light: CompiledLight) -> ColorVector {
    let v = spec_pv_normalize(spec_pv_sub(light.light.position, info.position));
    let shadow_ray = Ray { position: info.position, direction: v };
    if 1 <= info.element_id && info.element_id as int <= rt.scene.shapes@.len() {
        let elem = rt.scene.shapes@[info.element_id as int - 1];
        let shadow_info = spec_test_intersection(rt, shadow_ray, elem.id);
        let shadowed = if rt.render_data.render_shadow && shadow_info.is_hit && 1
            <= shadow_info.element_id && shadow_info.element_id as int
            <= rt.scene.shapes@.len() {
            let shadowelem = rt.scene.shapes@[shadow_info.element_id as int - 1];
            if shadowelem.id != elem.id {
                let trans = spec_material_transparency(spec_shape_material(shadowelem.shape));
                let trans_power = fx_sqrt_spec(trans as int);
                spec_cv_scale(
                    current,
                    fx_add_spec(FX_HALF as int, fx_mul_spec(FX_HALF as int, trans_power)),
                )
            } else {
                current
            }
        } else {
            current
        };
        spec_render_highlights(rt, shadowed, elem, shadow_info, light)
    } else {
        current
    }
}

/// What the reflection term returns: when enabled and the hit shape's
/// material reflects, the mirror ray is traced one level deeper (the
/// background on a miss), and the result is blended in with the
/// reflectivity as weight.
pub open spec fn spec_render_reflection(rt: RayTracer, current: ColorVector,
    info: IntersectionInfo, ray: Ray, depth: u32) -> ColorVector
    decreases rt.render_data.ray_trace_depth - depth, 0int, 0int,
    when depth < rt.render_data.ray_trace_depth
{
    if !rt.render_data.render_reflection {
        current
    } else if 1 <= info.element_id && info.element_id as int <= rt.scene.shapes@.len() {
        let elem = rt.scene.shapes@[info.element_id as int - 1];
        let refl_amount = spec_material_reflection(spec_shape_material(elem.shape));
        if refl_amount > 0 {
            let reflection_ray = spec_reflection_ray(info.position, info.normal, ray.direction);
            let refl = spec_test_intersection(rt, reflection_ray, elem.id);
            let reflected_color = if refl.is_hit && refl.distance > 0 {
                spec_ray_trace(rt, refl, reflection_ray, (depth + 1) as u32)
            } else {
                rt.scene.background.color
            };
            spec_cv_blend(current, reflected_color, refl_amount)
        } else {
            current
        }
    } else {
        current
    }
}

/// What the refraction term returns: when enabled and the hit shape's
/// material transmits, a refracted ray is pushed through the shape to
/// its exit, refracted again there, traced one level deeper into the
/// scene excluding the entry shape (the background on a miss), and the
/// result is blended in with the transparency as weight.
pub open spec fn spec_render_refraction(rt: RayTracer, current: ColorVector,
    info: IntersectionInfo, ray: Ray, depth: u32) -> ColorVector
    decreases rt.render_data.ray_trace_depth - depth, 0int, 0int,
    when depth < rt.render_data.ray_trace_depth
{
    if !rt.render_data.render_refraction {
        current
    } else if 1 <= info.element_id && info.element_id as int <= rt.scene.shapes@.len() {
        let elem = rt.scene.shapes@[info.element_id as int - 1];
        let trans_amount = spec_material_transparency(spec_shape_material(elem.shape));
        if trans_amount > 0 {
            let refraction_ray = spec_refraction_ray(
                info.position,
                info.normal,
                ray.direction,
                spec_material_refraction(spec_shape_material(elem.shape)),
            );
            let refr = spec_compiled_intersect(elem, refraction_ray);
            let transmitted_color = if refr.is_hit {
                if 1 <= refr.element_id && refr.element_id as int <= rt.scene.shapes@.len() {
                    let refrelem = rt.scene.shapes@[refr.element_id as int - 1];
                    let element_refraction_ray = spec_refraction_ray(
                        refr.position,
                        refr.normal,
                        refraction_ray.direction,
                        spec_material_refraction(spec_shape_material(refrelem.shape)),
                    );
                    let refr2 = spec_test_intersection(rt, element_refraction_ray, elem.id);
                    if refr2.is_hit && refr2.distance > 0 {
                        spec_ray_trace(rt, refr2, element_refraction_ray, (depth + 1) as u32)
                    } else {
                        rt.scene.background.color
                    }
                } else {
                    refr.color
                }
            } else {
                rt.scene.background.color
            };
            spec_cv_blend(current, transmitted_color, trans_amount)
        } else {
            current
        }
    } else {
        current
    }
}

/// The shading fold over the lights from position `i` on: each light
/// adds its diffuse term, and below the recursion bound its reflection,
/// refraction and shadow terms.
pub open spec fn spec_shade_lights(rt: RayTracer, info: IntersectionInfo, ray: Ray, depth: u32,
    i: int, current: ColorVector) -> ColorVector
    decreases
        rt.render_data.ray_trace_depth - depth,
        1int,
        rt.scene.lights@.len() - i,
    when depth <= rt.render_data.ray_trace_depth && 0 <= i <= rt.scene.lights@.len()
{
    if i >= rt.scene.lights@.len() {
        current
    } else {
        let light = rt.scene.lights@[i];
        let c1 = spec_render_diffuse(rt, current, info, light);
        let c2 = if depth < rt.render_data.ray_trace_depth {
            let ca = spec_render_reflection(rt, c1, info, ray, depth);
            let cb = spec_render_refraction(rt, ca, info, ray, depth);
            spec_render_shadow_and_highlights(rt, cb, info, light)
        } else {
            c1
        };
        spec_shade_lights(rt, info, ray, depth, i + 1, c2)
    }
}

/// What the recursive shader returns for a hit: the ambient term — the
/// surface color scaled by the background ambience — folded through
/// every light's contributions, recursion bounded strictly by depth.
pub open spec fn spec_ray_trace(rt: RayTracer, info: IntersectionInfo, ray: Ray,
    depth: u32) -> ColorVector
    decreases rt.render_data.ray_trace_depth - depth, 2int, 0int,
    when depth <= rt.render_data.ray_trace_depth
{
    let ambient = spec_cv_scale(info.color, rt.scene.background.ambience as int);
    spec_shade_lights(rt, info, ray, depth, 0, ambient)
}

/// What a whole ray evaluates to: the shaded nearest hit, or the
/// background color when nothing is hit.
pub open spec fn spec_calculate_color(rt: RayTracer, ray: Ray) -> ColorVector {
    let info = spec_test_intersection(rt, ray, 0);
    if info.is_hit {
        spec_ray_trace(rt, info, ray, 0)
    } else {
        rt.scene.background.color
    }
}

/// A pixel coordinate mapped to a normalized device coordinate in minus
/// one to one: `c / extent * 2 - 1`.
pub open spec fn spec_pixel_ndc(c: u32, extent: u32) -> i64 {
    fx_sub_spec(
        fx_mul_spec(
            fx_div_spec(c as int * FX_ONE as int, extent as int * FX_ONE as int),
            FX_TWO as int,
        ),
        FX_ONE as int,
    ) as i64
}

/// What a pixel evaluates to: the ray through its device coordinates
/// (the vertical axis flipped, since raster rows grow downward), traced
/// through the scene.
pub open spec fn spec_get_pixel_color(rt: RayTracer, x: u32, y: u32) -> ColorVector {
    let xp = spec_pixel_ndc(x, rt.render_data.width);
    let yp = sat64(-(spec_pixel_ndc(y, rt.render_data.height) as int)) as i64;
    spec_calculate_color(rt, spec_camera_ray(rt.camera, xp, yp))
}

impl RayTracer {
    pub fn new(camera: Camera, render_data: RenderData, scene: Scene) -> (rt: RayTracer)
        ensures
            rt.camera == camera,
            rt.render_data == render_data,
            rt.scene == scene,
            rt.use_kd_tree == false,
            rt.stats.num_rays_traced == 0,
    {
        RayTracer {
            camera,
            render_data,
            scene,
            use_kd_tree: false,
            stats: RayTraceStatistics::new(),
        }
    }

    /// The mirror ray at a hit point.
    fn get_reflection_ray(&self, p: crate::posvector::PosVector,
        n: crate::posvector::PosVector, v: crate::posvector::PosVector) -> (r: Ray)
        ensures
            r == spec_reflection_ray(p, n, v),
    {
        let c1 = fx_neg(n.dot_product(v));
        let rl = v.add(n.multiply_by_scalar(FX_TWO).multiply_by_scalar(c1));
        Ray::new(p, rl)
    }

    /// The refracted ray at a hit point.
    fn get_refraction_ray(&self, p: crate::posvector::PosVector,
        n: crate::posvector::PosVector, v: crate::posvector::PosVector, refraction: i64) -> (r:
        Ray)
        ensures
            r == spec_refraction_ray(p, n, v, refraction),
    {
        let c1 = n.dot_product(v);
        let root = fx_sqrt(fx_sub(FX_ONE, fx_mul(c1, c1)));
        let c2 = fx_sub(FX_ONE, fx_mul(fx_mul(refraction, refraction), root));
        let t = n.multiply_by_scalar(fx_sub(fx_mul(refraction, c1), c2)).subtract(
            v.multiply_by_scalar(refraction),
        ).multiply_by_scalar(fx_neg(FX_ONE)).normalize();
        Ray::new(p, t)
    }

    /// The linear scan over every shape for the nearest non-excluded hit.
    fn test_intersection_basic(&self, ray: &Ray, exclude_id: u32) -> (r: IntersectionInfo)
        ensures
            r == spec_scan_intersection(
                self.scene.shapes@,
                *ray,
                exclude_id,
                0,
                spec_no_hit(),
            ),
    {
        let mut best_info = IntersectionInfo::new_default();
        let n = self.scene.shapes.len();
        let mut i: usize = 0;
        while i < n
            invariant
                i <= n,
                n == self.scene.shapes@.len(),
                spec_scan_intersection(self.scene.shapes@, *ray, exclude_id, i as int, best_info)
                    == spec_scan_intersection(
                    self.scene.shapes@,
                    *ray,
                    exclude_id,
                    0,
                    spec_no_hit(),
                ),
            decreases n - i,
        {
            let shape = &self.scene.shapes[i];
            if shape.get_id() != exclude_id {
                let info = shape.intersect(ray);
                if info.is_hit && info.distance < best_info.distance && info.distance >= 0 {
                    best_info = info;
                }
            }
            i = i + 1;
        }
        best_info
    }

    /// The spatial-index path: a stub that finds nothing.
    fn test_intersection_kd(&self, _ray: &Ray, _exclude_id: u32) -> (r: IntersectionInfo)
        ensures
            r == spec_no_hit(),
    {
        IntersectionInfo::new_default()
    }

    /// The nearest non-excluded hit of a ray over the whole scene.
    fn test_intersection(&self, ray: &Ray, exclude_id: u32) -> (r: IntersectionInfo)
        ensures
            r == spec_test_intersection(*self, *ray, exclude_id),
    {
        if self.use_kd_tree {
            self.test_intersection_kd(ray, exclude_id)
        } else {
            self.test_intersection_basic(ray, exclude_id)
        }
    }

    /// Add one light's diffuse term to the accumulated color.
    fn render_diffuse(&self, current_color: ColorVector, intersection_info: &IntersectionInfo,
        light: &CompiledLight) -> (c: ColorVector)
        ensures
            c == spec_render_diffuse(*self, current_color, *intersection_info, *light),
    {
        let mut color = current_color;
        if self.render_data.render_diffuse {
            let v = light.get_position().subtract(intersection_info.position).normalize();
            let l = v.dot_product(intersection_info.normal);
            if l > 0 {
                color = color.add(
                    intersection_info.color.multiply(light.get_color()).multiply_by_scalar(l),
                );
            }
        }
        color
    }

    /// Blend in the mirror reflection, one recursion level deeper.
    fn render_reflection(&self, current_color: ColorVector,
        intersection_info: &IntersectionInfo, ray: &Ray, depth: u32) -> (c: ColorVector)
        requires
            depth < self.render_data.ray_trace_depth,
        ensures
            c == spec_render_reflection(*self, current_color, *intersection_info, *ray, depth),
        decreases self.render_data.ray_trace_depth - depth, 0int,
    {
        let mut color = current_color;

        if self.render_data.render_reflection {
            match self.scene.get_shape(&intersection_info.element_id) {
                None => {},
                Some(elem) => {
                    let elem = *elem;
                    if elem.get_material().get_reflection() > 0 {
                        let reflection_ray = self.get_reflection_ray(
                            intersection_info.position,
                            intersection_info.normal,
                            ray.get_direction(),
                        );
                        let mut refl = self.test_intersection(&reflection_ray, elem.get_id());
                        if refl.is_hit && refl.distance > 0 {
                            refl.color = self.ray_trace(&refl, &reflection_ray, depth + 1);
                        } else {
                            refl.color = self.scene.background.color;
                        }

                        color = color.blend(refl.color, elem.get_material().get_reflection());
                    }
                },
            }
        }

        color
    }

    /// Blend in the transmitted light through a transparent shape, one
    /// recursion level deeper.
    fn render_refraction(&self, current_color: ColorVector,
        intersection_info: &IntersectionInfo, ray: &Ray, depth: u32) -> (c: ColorVector)
        requires
            depth < self.render_data.ray_trace_depth,
        ensures
            c == spec_render_refraction(*self, current_color, *intersection_info, *ray, depth),
        decreases self.render_data.ray_trace_depth - depth, 0int,
    {
        let mut color = current_color;

        if self.render_data.render_refraction {
            match self.scene.get_shape(&intersection_info.element_id) {
                None => {},
                Some(elem) => {
                    let elem = *elem;
                    if elem.get_material().get_transparency() > 0 {
                        let refraction_ray = self.get_refraction_ray(
                            intersection_info.position,
                            intersection_info.normal,
                            ray.get_direction(),
                            elem.get_material().get_refraction(),
                        );
                        let mut refr = elem.intersect(&refraction_ray);
                        if refr.is_hit {
                            match self.scene.get_shape(&refr.element_id) {
                                None => {},
                                Some(refrelem) => {
                                    let refrelem = *refrelem;
                                    let element_refraction_ray = self.get_refraction_ray(
                                        refr.position,
                                        refr.normal,
                                        refraction_ray.get_direction(),
                                        refrelem.get_material().get_refraction(),
                                    );
                                    refr = self.test_intersection(
                                        &element_refraction_ray,
                                        elem.get_id(),
                                    );
                                    if refr.is_hit && refr.distance > 0 {
                                        refr.color = self.ray_trace(
                                            &refr,
                                            &element_refraction_ray,
                                            depth + 1,
                                        );
                                    } else {
                                        refr.color = self.scene.background.color;
                                    }
                                },
                            }
                        } else {
                            refr.color = self.scene.background.color;
                        }
                        color = color.blend(refr.color, elem.get_material().get_transparency());
                    }
                },
            }
        }
        color
    }

    /// The highlight probe; the gloss weight is zero, so the
    /// accumulated color comes back unchanged.
    fn render_highlights(&self, current_color: ColorVector, elem: &CompiledShape,
        shadow_intersection: &IntersectionInfo, light: &CompiledLight) -> (c: ColorVector)
        ensures
            c == spec_render_highlights(
                *self,
                current_color,
                *elem,
                *shadow_intersection,
                *light,
            ),
    {
        let mut color = current_color;
        if self.render_data.render_highlights && !shadow_intersection.is_hit
            && elem.get_material().get_gloss() > 0 {
            color = color.add(light.get_color().multiply_by_scalar(0));
        }
        color
    }

    /// Attenuate the color when another shape shadows the light, then
    /// probe for a highlight.
    fn render_shadow_and_highlights(&self, current_color: ColorVector,
        intersection_info: &IntersectionInfo, light: &CompiledLight) -> (c: ColorVector)
        ensures
            c == spec_render_shadow_and_highlights(
                *self,
                current_color,
                *intersection_info,
                *light,
            ),
    {
        let mut color = current_color;

        let v = light.get_position().subtract(intersection_info.position).normalize();
        let shadow_ray = Ray::new(intersection_info.position, v);

        match self.scene.get_shape(&intersection_info.element_id) {
            None => {},
            Some(elem) => {
                let elem = *elem;
                let shadow_intersection = self.test_intersection(&shadow_ray, elem.get_id());
                if self.render_data.render_shadow {
                    if shadow_intersection.is_hit {
                        match self.scene.get_shape(&shadow_intersection.element_id) {
                            None => {},
                            Some(shadowelem) => {
                                let shadowelem = *shadowelem;
                                if shadowelem.get_id() != elem.get_id() {
                                    let trans =
                                        shadowelem.get_material().get_transparency();
                                    let trans_power = fx_sqrt(trans);
                                    color = color.multiply_by_scalar(
                                        fx_add(FX_HALF, fx_mul(FX_HALF, trans_power)),
                                    );
                                }
                            },
                        }
                    }
                }

                color = self.render_highlights(color, &elem, &shadow_intersection, light);
            },
        }
        color
    }

    /// The recursive shader: the ambient term, then every light's
    /// contributions, recursing strictly below the depth bound.
    fn ray_trace(&self, intersection_info: &IntersectionInfo, ray: &Ray, depth: u32) -> (c:
        ColorVector)
        requires
            depth <= self.render_data.ray_trace_depth,
        ensures
            c == spec_ray_trace(*self, *intersection_info, *ray, depth),
        decreases self.render_data.ray_trace_depth - depth, 1int,
    {
        let mut color = intersection_info.color.multiply_by_scalar(
            self.scene.background.ambience,
        );

        let n = self.scene.lights.len();
        let mut i: usize = 0;
        while i < n
            invariant
                i <= n,
                n == self.scene.lights@.len(),
                depth <= self.render_data.ray_trace_depth,
                spec_shade_lights(*self, *intersection_info, *ray, depth, i as int, color)
                    == spec_ray_trace(*self, *intersection_info, *ray, depth),
            decreases n - i,
        {
            let light = self.scene.lights[i];
            color = self.render_diffuse(color, intersection_info, &light);

            if depth < self.render_data.ray_trace_depth {
                color = self.render_reflection(color, intersection_info, ray, depth);
                color = self.render_refraction(color, intersection_info, ray, depth);
                color = self.render_shadow_and_highlights(color, intersection_info, &light);
            }
            i = i + 1;
        }

        color
    }

    /// The color a whole ray evaluates to: the shaded nearest hit, or
    /// the background color.
    fn calculate_color(&self, ray: &Ray) -> (c: ColorVector)
        ensures
            c == spec_calculate_color(*self, *ray),
            self.scene.shapes@.len() == 0 ==> c == self.scene.background.color,
    {
        let intersection_info = self.test_intersection(ray, 0);
        if intersection_info.is_hit {
            self.ray_trace(&intersection_info, ray, 0)
        } else {
            self.scene.background.color
        }
    }

    /// The color of one pixel: its coordinates normalized onto the
    /// camera's device square (the vertical axis flipped), the ray built
    /// and traced.  In a scene without shapes this is exactly the
    /// background color, whatever the pixel.
    pub fn get_pixel_color(&self, x: u32, y: u32) -> (c: ColorVector)
        requires
            self.render_data.width > 0,
            self.render_data.height > 0,
        ensures
            c == spec_get_pixel_color(*self, x, y),
            self.scene.shapes@.len() == 0 ==> c == self.scene.background.color,
    {
        let xf = (x as i64) * FX_ONE;
        let wf = (self.render_data.width as i64) * FX_ONE;
        let yf = (y as i64) * FX_ONE;
        let hf = (self.render_data.height as i64) * FX_ONE;
        let xp = fx_sub(fx_mul(fx_div(xf, wf), FX_TWO), FX_ONE);
        let yp = fx_neg(fx_sub(fx_mul(fx_div(yf, hf), FX_TWO), FX_ONE));

        let ray = self.camera.get_ray(xp, yp);
        self.calculate_color(&ray)
    }
}

} // verus!

verus! {

/// Whether two tracers see the same frame: the same camera, scene,
/// spatial-index switch, frame size, recursion bound and shading
/// toggles.  The worker count and the partition granularity are free:
/// they orchestrate the work and are no input to any pixel.
pub open spec fn spec_same_view(rt1: RayTracer, rt2: RayTracer) -> bool {
    &&& rt1.camera == rt2.camera
    &&& rt1.scene == rt2.scene
    &&& rt1.use_kd_tree == rt2.use_kd_tree
    &&& rt1.render_data.width == rt2.render_data.width
    &&& rt1.render_data.height == rt2.render_data.height
    &&& rt1.render_data.ray_trace_depth == rt2.render_data.ray_trace_depth
    &&& rt1.render_data.render_diffuse == rt2.render_data.render_diffuse
    &&& rt1.render_data.render_reflection == rt2.render_data.render_reflection
    &&& rt1.render_data.render_refraction == rt2.render_data.render_refraction
    &&& rt1.render_data.render_shadow == rt2.render_data.render_shadow
    &&& rt1.render_data.render_highlights == rt2.render_data.render_highlights
}

/// The recursive shader reads nothing of the worker configuration.
proof fn lemma_ray_trace_same_view(rt1: RayTracer, rt2: RayTracer, info: IntersectionInfo,
    ray: Ray, depth: u32)
    requires
        spec_same_view(rt1, rt2),
        depth <= rt1.render_data.ray_trace_depth,
    ensures
        spec_ray_trace(rt1, info, ray, depth) == spec_ray_trace(rt2, info, ray, depth),
    decreases rt1.render_data.ray_trace_depth - depth, 2int, 0int,
{
    lemma_shade_lights_same_view(rt1, rt2, info, ray, depth, 0);
    let ambient = spec_cv_scale(info.color, rt1.scene.background.ambience as int);
    assert(spec_cv_scale(info.color, rt2.scene.background.ambience as int) == ambient);
    assert(spec_ray_trace(rt1, info, ray, depth) == spec_shade_lights(
        rt1,
        info,
        ray,
        depth,
        0,
        ambient,
    ));
    assert(spec_ray_trace(rt2, info, ray, depth) == spec_shade_lights(
        rt2,
        info,
        ray,
        depth,
        0,
        ambient,
    ));
    assert(spec_shade_lights(rt1, info, ray, depth, 0, ambient) == spec_shade_lights(
        rt2,
        info,
        ray,
        depth,
        0,
        ambient,
    ));
}

/// The per-light fold reads nothing of the worker configuration.
proof fn lemma_shade_lights_same_view(rt1: RayTracer, rt2: RayTracer,
    info: IntersectionInfo, ray: Ray, depth: u32, i: int)
    requires
        spec_same_view(rt1, rt2),
        depth <= rt1.render_data.ray_trace_depth,
        0 <= i <= rt1.scene.lights@.len(),
    ensures
        forall|current: ColorVector|
            #[trigger] spec_shade_lights(rt1, info, ray, depth, i, current)
                == spec_shade_lights(rt2, info, ray, depth, i, current),
    decreases
        rt1.render_data.ray_trace_depth - depth,
        1int,
        rt1.scene.lights@.len() - i,
{
    if i < rt1.scene.lights@.len() {
        if depth < rt1.render_data.ray_trace_depth {
            lemma_render_reflection_same_view(rt1, rt2, info, ray, depth);
            lemma_render_refraction_same_view(rt1, rt2, info, ray, depth);
        }
        lemma_shade_lights_same_view(rt1, rt2, info, ray, depth, i + 1);
        assert forall|current: ColorVector|
            #[trigger] spec_shade_lights(rt1, info, ray, depth, i, current)
                == spec_shade_lights(rt2, info, ray, depth, i, current) by {
            let light = rt1.scene.lights@[i];
            assert(rt2.scene.lights@[i] == light);
            let c1 = spec_render_diffuse(rt1, current, info, light);
            assert(spec_render_diffuse(rt2, current, info, light) == c1);
            let c2 = if depth < rt1.render_data.ray_trace_depth {
                let ca = spec_render_reflection(rt1, c1, info, ray, depth);
                assert(spec_render_reflection(rt2, c1, info, ray, depth) == ca);
                let cb = spec_render_refraction(rt1, ca, info, ray, depth);
                assert(spec_render_refraction(rt2, ca, info, ray, depth) == cb);
                let cc = spec_render_shadow_and_highlights(rt1, cb, info, light);
                assert(spec_render_shadow_and_highlights(rt2, cb, info, light) == cc);
                cc
            } else {
                c1
            };
            assert(spec_shade_lights(rt1, info, ray, depth, i + 1, c2) == spec_shade_lights(
                rt2,
                info,
                ray,
                depth,
                i + 1,
                c2,
            ));
        }
    }
}

/// The reflection term reads nothing of the worker configuration.
proof fn lemma_render_reflection_same_view(rt1: RayTracer, rt2: RayTracer,
    info: IntersectionInfo, ray: Ray, depth: u32)
    requires
        spec_same_view(rt1, rt2),
        depth < rt1.render_data.ray_trace_depth,
    ensures
        forall|current: ColorVector|
            #[trigger] spec_render_reflection(rt1, current, info, ray, depth)
                == spec_render_reflection(rt2, current, info, ray, depth),
    decreases rt1.render_data.ray_trace_depth - depth, 0int, 0int,
{
    if rt1.render_data.render_reflection && 1 <= info.element_id && info.element_id as int
        <= rt1.scene.shapes@.len() {
        let elem = rt1.scene.shapes@[info.element_id as int - 1];
        if spec_material_reflection(spec_shape_material(elem.shape)) > 0 {
            let reflection_ray = spec_reflection_ray(info.position, info.normal, ray.direction);
            let refl = spec_test_intersection(rt1, reflection_ray, elem.id);
            if refl.is_hit && refl.distance > 0 {
                lemma_ray_trace_same_view(rt1, rt2, refl, reflection_ray, (depth + 1) as u32);
            }
        }
    }
}

/// The refraction term reads nothing of the worker configuration.
proof fn lemma_render_refraction_same_view(rt1: RayTracer, rt2: RayTracer,
    info: IntersectionInfo, ray: Ray, depth: u32)
    requires
        spec_same_view(rt1, rt2),
        depth < rt1.render_data.ray_trace_depth,
    ensures
        forall|current: ColorVector|
            #[trigger] spec_render_refraction(rt1, current, info, ray, depth)
                == spec_render_refraction(rt2, current, info, ray, depth),
    decreases rt1.render_data.ray_trace_depth - depth, 0int, 0int,
{
    if rt1.render_data.render_refraction && 1 <= info.element_id && info.element_id as int
        <= rt1.scene.shapes@.len() {
        let elem = rt1.scene.shapes@[info.element_id as int - 1];
        if spec_material_transparency(spec_shape_material(elem.shape)) > 0 {
            let refraction_ray = spec_refraction_ray(
                info.position,
                info.normal,
                ray.direction,
                spec_material_refraction(spec_shape_material(elem.shape)),
            );
            let refr = spec_compiled_intersect(elem, refraction_ray);
            if refr.is_hit && 1 <= refr.element_id && refr.element_id as int
                <= rt1.scene.shapes@.len() {
                let refrelem = rt1.scene.shapes@[refr.element_id as int - 1];
                let element_refraction_ray = spec_refraction_ray(
                    refr.position,
                    refr.normal,
                    refraction_ray.direction,
                    spec_material_refraction(spec_shape_material(refrelem.shape)),
                );
                let refr2 = spec_test_intersection(rt1, element_refraction_ray, elem.id);
                if refr2.is_hit && refr2.distance > 0 {
                    lemma_ray_trace_same_view(
                        rt1,
                        rt2,
                        refr2,
                        element_refraction_ray,
                        (depth + 1) as u32,
                    );
                }
            }
        }
    }
}

/// A pixel's color is a function of the camera, the scene, the frame
/// size, the recursion bound and the shading toggles alone: the worker
/// count and the partition granularity never reach it.
pub proof fn lemma_pixel_color_ignores_partitioning(rt1: RayTracer, rt2: RayTracer, x: u32,
    y: u32)
    requires
        spec_same_view(rt1, rt2),
    ensures
        spec_get_pixel_color(rt1, x, y) == spec_get_pixel_color(rt2, x, y),
{
    let xp = spec_pixel_ndc(x, rt1.render_data.width);
    let yp = sat64(-(spec_pixel_ndc(y, rt1.render_data.height) as int)) as i64;
    let ray = spec_camera_ray(rt1.camera, xp, yp);
    let info = spec_test_intersection(rt1, ray, 0);
    if info.is_hit {
        lemma_ray_trace_same_view(rt1, rt2, info, ray, 0);
    }
}

} // verus!
