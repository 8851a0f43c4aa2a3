//! Geometry, scene compilation, the tracer and the render drivers.

use rustraylib::camera::Camera;
use rustraylib::camera::Ray;
use rustraylib::color::ColorVector;
use rustraylib::fixed::FX_ONE;
use rustraylib::light::PointLight;
use rustraylib::material::SceneMaterial;
use rustraylib::material::SolidMaterial;
use rustraylib::nffparsing::FOV50_PROJECTION_SCALE;
use rustraylib::nffparsing::parse_nff_file;
use rustraylib::posvector::PosVector;
use rustraylib::renderer::RenderData;
use rustraylib::renderer::Renderer;
use rustraylib::scene::Background;
use rustraylib::scene::Scene;
use rustraylib::scene::new_basic_scene;
use rustraylib::scene::new_marbles_scene;
use rustraylib::shapes::BoundingBox;
use rustraylib::shapes::PlaneShape;
use rustraylib::shapes::ShapeKind;
use rustraylib::shapes::SphereShape;
use rustraylib::shapes::TriangleShape;
use rustraylib::tracer::RayTraceStatistics;
use rustraylib::tracer::RayTracer;

fn red_material() -> SceneMaterial {
    SceneMaterial::Solid(SolidMaterial::new(0, 0, 0, 0, ColorVector::new(FX_ONE, 0, 0)))
}

#[test]
fn sphere_axial_hit_distance() {
    // from (0,0,2) toward the origin along -z, a unit sphere is hit at
    // distance one, within one quantum
    let s = SphereShape {
        position: PosVector::new_default(),
        radius: FX_ONE,
        material: red_material(),
        id: 1,
    };
    let ray = Ray::new(
        PosVector::new(0, 0, 2 * FX_ONE),
        PosVector::new(0, 0, -FX_ONE),
    );
    let info = s.intersect(&ray);
    assert!(info.is_hit);
    assert!((info.distance - FX_ONE).abs() <= 1, "distance {}", info.distance);
}

#[test]
fn sphere_miss_behind() {
    // a ray pointing away from the sphere reports the near root behind
    // the origin; the scene scan then drops it for its negative distance
    let s = SphereShape {
        position: PosVector::new_default(),
        radius: FX_ONE,
        material: red_material(),
        id: 1,
    };
    let ray = Ray::new(
        PosVector::new(0, 0, 2 * FX_ONE),
        PosVector::new(0, 0, FX_ONE),
    );
    let info = s.intersect(&ray);
    assert!(!info.is_hit || info.distance < 0);
}

#[test]
fn plane_parallel_ray_misses() {
    // dot(normal, direction) == 0: no hit
    let p = PlaneShape {
        position: PosVector::new(0, 0, FX_ONE),
        d_val: 0,
        material: red_material(),
        id: 1,
    };
    let ray = Ray::new(
        PosVector::new(0, 0, 3 * FX_ONE),
        PosVector::new(FX_ONE, 0, 0),
    );
    assert!(!p.intersect(&ray).is_hit);
}

#[test]
fn plane_head_on_hit() {
    let p = PlaneShape {
        position: PosVector::new(0, 0, FX_ONE),
        d_val: 0,
        material: red_material(),
        id: 1,
    };
    let ray = Ray::new(
        PosVector::new(0, 0, 3 * FX_ONE),
        PosVector::new(0, 0, -FX_ONE),
    );
    let info = p.intersect(&ray);
    assert!(info.is_hit);
    assert_eq!(info.distance, 3 * FX_ONE);
}

#[test]
fn triangle_centroid_barycentric() {
    // a right triangle in the plane z = 0; the centroid lies strictly
    // inside: both barycentric coordinates in (0,1), their sum below 1
    let t = TriangleShape::new(
        PosVector::new(0, 0, 0),
        PosVector::new(FX_ONE, 0, 0),
        PosVector::new(0, FX_ONE, 0),
        red_material(),
        red_material(),
        1,
    );
    let third = FX_ONE / 3;
    let centroid = PosVector::new(third, third, 0);
    let ray = Ray::new(
        PosVector::new(third, third, FX_ONE),
        PosVector::new(0, 0, -FX_ONE),
    );
    let info = t.intersect(&ray);
    assert!(info.is_hit);

    let v = centroid.subtract(t.va);
    let v_coord = v.dot_product(t.u_beta);
    let w_coord = v.dot_product(t.u_gamma);
    assert!(0 < v_coord && v_coord < FX_ONE, "beta {v_coord}");
    assert!(0 < w_coord && w_coord < FX_ONE, "gamma {w_coord}");
    assert!(v_coord + w_coord < FX_ONE);
}

#[test]
fn triangle_outside_misses() {
    let t = TriangleShape::new(
        PosVector::new(0, 0, 0),
        PosVector::new(FX_ONE, 0, 0),
        PosVector::new(0, FX_ONE, 0),
        red_material(),
        red_material(),
        1,
    );
    // above a point whose barycentric sum exceeds one
    let ray = Ray::new(
        PosVector::new(58982, 58982, FX_ONE),
        PosVector::new(0, 0, -FX_ONE),
    );
    assert!(!t.intersect(&ray).is_hit);
}

#[test]
fn degenerate_triangle_never_hits() {
    // collinear vertices: the normal is zero and every ray misses
    let t = TriangleShape::new(
        PosVector::new(0, 0, 0),
        PosVector::new(FX_ONE, 0, 0),
        PosVector::new(2 * FX_ONE, 0, 0),
        red_material(),
        red_material(),
        1,
    );
    assert!(!t.is_well_formed());
    let ray = Ray::new(
        PosVector::new(0, 0, FX_ONE),
        PosVector::new(0, 0, -FX_ONE),
    );
    assert!(!t.intersect(&ray).is_hit);
}

#[test]
fn bounding_box_union_encloses() {
    let a = BoundingBox {
        boxmin: PosVector::new(0, 0, 0),
        boxmax: PosVector::new(FX_ONE, FX_ONE, FX_ONE),
    };
    let b = BoundingBox {
        boxmin: PosVector::new(-FX_ONE, 0, 0),
        boxmax: PosVector::new(0, 2 * FX_ONE, FX_ONE),
    };
    let u = a.get_enlarged_to_enclose(&b);
    assert_eq!(u.get_box_min(), PosVector::new(-FX_ONE, 0, 0));
    assert_eq!(u.get_box_max(), PosVector::new(FX_ONE, 2 * FX_ONE, FX_ONE));
    assert!(u.is_well_formed());
    assert!(!u.is_empty());
}

#[test]
fn bounding_box_slab_test() {
    let b = BoundingBox {
        boxmin: PosVector::new(-FX_ONE, -FX_ONE, -FX_ONE),
        boxmax: PosVector::new(FX_ONE, FX_ONE, FX_ONE),
    };
    let toward = Ray::new(
        PosVector::new(0, 0, 5 * FX_ONE),
        PosVector::new(0, 0, -FX_ONE),
    );
    assert!(b.get_ray_intersects(&toward));
    let away = Ray::new(
        PosVector::new(0, 0, 5 * FX_ONE),
        PosVector::new(0, 0, FX_ONE),
    );
    assert!(!b.get_ray_intersects(&away));
}

#[test]
fn scene_assigns_sequential_ids() {
    let shapes = vec![
        ShapeKind::Sphere(SphereShape {
            position: PosVector::new_default(),
            radius: FX_ONE,
            material: red_material(),
            id: 1,
        }),
        ShapeKind::Plane(PlaneShape {
            position: PosVector::new(0, 0, FX_ONE),
            d_val: 0,
            material: red_material(),
            id: 2,
        }),
    ];
    let lights = vec![PointLight::new(
        PosVector::new(0, 0, 5 * FX_ONE),
        ColorVector::new(FX_ONE, FX_ONE, FX_ONE),
    )];
    let scene = Scene::new(
        Background::new(ColorVector::new(0, 0, 0), 0),
        shapes,
        lights,
    );
    assert_eq!(scene.get_shape(&1).unwrap().get_id(), 1);
    assert_eq!(scene.get_shape(&2).unwrap().get_id(), 2);
    assert!(scene.get_shape(&0).is_none());
    assert!(scene.get_shape(&3).is_none());
    assert_eq!(scene.get_light(&1).unwrap().get_color().r, FX_ONE);
    assert!(scene.get_light(&2).is_none());
}

#[test]
fn empty_scene_returns_background_everywhere() {
    let background_color = ColorVector::new(6553, 13107, 19661);
    let scene = Scene::new(
        Background::new(background_color, 13107),
        Vec::new(),
        Vec::new(),
    );
    let camera = Camera::new(
        PosVector::new(0, 0, 5 * FX_ONE),
        PosVector::new_default(),
        PosVector::new(0, FX_ONE, 0),
        50 * FX_ONE,
        FOV50_PROJECTION_SCALE,
    );
    let rd = RenderData::new(4, 4, 1, 1, false);
    let tracer = RayTracer::new(camera, rd, scene);
    for y in 0..4 {
        for x in 0..4 {
            assert_eq!(tracer.get_pixel_color(x, y), background_color);
        }
    }
}

#[test]
fn single_sphere_scene_center_and_corner() {
    // one opaque red sphere at the origin, one white light and the
    // camera both at (0,0,5): the center pixel shades red, the corner
    // pixel is exactly the background
    let background_color = ColorVector::new(0, 0, 19661);
    let shapes = vec![ShapeKind::Sphere(SphereShape {
        position: PosVector::new_default(),
        radius: FX_ONE,
        material: red_material(),
        id: 1,
    })];
    let lights = vec![PointLight::new(
        PosVector::new(0, 0, 5 * FX_ONE),
        ColorVector::new(FX_ONE, FX_ONE, FX_ONE),
    )];
    let scene = Scene::new(Background::new(background_color, 13107), shapes, lights);
    let camera = Camera::new(
        PosVector::new(0, 0, 5 * FX_ONE),
        PosVector::new_default(),
        PosVector::new(0, FX_ONE, 0),
        50 * FX_ONE,
        FOV50_PROJECTION_SCALE,
    );
    let rd = RenderData::new(10, 10, 1, 1, false);
    let tracer = RayTracer::new(camera, rd, scene);

    let center = tracer.get_pixel_color(5, 5);
    assert!(center.r > 0, "center {center:?}");
    assert_ne!(center, background_color);

    let corner = tracer.get_pixel_color(0, 0);
    assert_eq!(corner, background_color);
}

#[test]
fn per_pixel_and_per_line_renders_agree() {
    let (scene_a, camera) = demo_scene_and_camera();
    let (scene_b, _) = demo_scene_and_camera();

    let per_pixel = Renderer::render(camera, scene_a, RenderData::new(16, 12, 2, 1, false));
    let per_line = Renderer::render(camera, scene_b, RenderData::new(16, 12, 2, 4, true));

    assert_eq!(per_pixel.get_width(), per_line.get_width());
    assert_eq!(per_pixel.get_height(), per_line.get_height());
    assert_eq!(per_pixel.pixels, per_line.pixels);
}

fn demo_scene_and_camera() -> (Scene, Camera) {
    let shapes = vec![
        ShapeKind::Sphere(SphereShape {
            position: PosVector::new_default(),
            radius: FX_ONE,
            material: SceneMaterial::Solid(SolidMaterial::new(
                FX_ONE,
                13107,
                0,
                0,
                ColorVector::new(FX_ONE, 0, 0),
            )),
            id: 1,
        }),
        ShapeKind::Plane(PlaneShape {
            position: PosVector::new(0, 0, FX_ONE),
            d_val: 2 * FX_ONE,
            material: red_material(),
            id: 2,
        }),
    ];
    let lights = vec![PointLight::new(
        PosVector::new(3 * FX_ONE, 3 * FX_ONE, 5 * FX_ONE),
        ColorVector::new(FX_ONE, FX_ONE, FX_ONE),
    )];
    let scene = Scene::new(
        Background::new(ColorVector::new(1000, 2000, 3000), 13107),
        shapes,
        lights,
    );
    let camera = Camera::new(
        PosVector::new(0, 0, 5 * FX_ONE),
        PosVector::new_default(),
        PosVector::new(0, FX_ONE, 0),
        50 * FX_ONE,
        FOV50_PROJECTION_SCALE,
    );
    (scene, camera)
}

#[test]
fn basic_scene_compiles_well_formed() {
    let s = new_basic_scene();
    assert_eq!(s.shapes.len(), 6);
    assert_eq!(s.lights.len(), 1);
    assert_eq!(s.get_shape(&6).unwrap().get_id(), 6);
}

#[test]
fn marbles_scene_rows_of_spheres() {
    let s = new_marbles_scene(
        ColorVector::new(0, 0, 0),
        0,
        2 * FX_ONE,
        5 * FX_ONE,
        3,
        true,
        PosVector::new(0, 0, FX_ONE),
        0,
    );
    // four spheres per axis (0, 5, 10, 15) and the plane
    assert_eq!(s.shapes.len(), 13);
    assert_eq!(s.lights.len(), 2);
}

#[test]
fn statistics_count_rays() {
    let mut stats = RayTraceStatistics::new();
    assert_eq!(stats.num_rays_traced, 0);
    stats.add_ray_traced();
    stats.add_ray_traced();
    assert_eq!(stats.num_rays_traced, 2);
}

#[test]
fn nff_lines_build_scene() {
    let lines: Vec<String> = vec![
        "b 0.1 0.2 0.3".to_string(),
        "v".to_string(),
        "from 0 0 5".to_string(),
        "at 0 0 0".to_string(),
        "up 0 1 0".to_string(),
        "45".to_string(),
        "0.1".to_string(),
        "res 64 48".to_string(),
        "f 1 0 0 0.5 0.2 3 0.1 1.5".to_string(),
        "s 0 0 0 1".to_string(),
        "# a comment".to_string(),
        "l 1 2 3".to_string(),
    ];
    let result = parse_nff_file(&lines, 2, 5);

    // the ground plane plus the declared sphere
    assert_eq!(result.scene.shapes.len(), 2);
    assert_eq!(result.scene.lights.len(), 1);
    assert_eq!(
        result.scene.background.color,
        ColorVector::new(6553, 13107, 19660)
    );
    assert_eq!(result.render_data.width, 64);
    assert_eq!(result.render_data.height, 48);
    assert_eq!(result.render_data.num_threads, 2);
    assert_eq!(result.render_data.ray_trace_depth, 5);
    assert!(result.render_data.thread_per_line);
    assert_eq!(result.camera.position, PosVector::new(0, 0, 5 * FX_ONE));
    assert_eq!(result.camera.dval, FOV50_PROJECTION_SCALE);

    // the declared sphere carries the current material's mapping:
    // shine to gloss, specular to reflectivity, transmittance to
    // transparency, the index to refraction
    match result.scene.get_shape(&2).unwrap().shape {
        ShapeKind::Sphere(sp) => {
            assert_eq!(sp.radius, FX_ONE);
            match sp.material {
                SceneMaterial::Solid(m) => {
                    assert_eq!(m.material.gloss, 3 * FX_ONE);
                    assert_eq!(m.material.reflection, 13107);
                    assert_eq!(m.material.transparency, 6553);
                    assert_eq!(m.material.refraction, 98304);
                    assert_eq!(m.color, ColorVector::new(FX_ONE, 0, 0));
                }
                _ => panic!("expected a solid material"),
            }
        }
        _ => panic!("expected a sphere"),
    }

    // the default light color is white
    assert_eq!(
        result.scene.get_light(&1).unwrap().get_color(),
        ColorVector::new(FX_ONE, FX_ONE, FX_ONE)
    );
}

#[test]
fn nff_malformed_directives_are_skipped() {
    let lines: Vec<String> = vec![
        "b nonsense 0.2 0.3".to_string(),
        "s 0 0 0".to_string(),
        "s 1 2 3 oops".to_string(),
        "l".to_string(),
    ];
    let result = parse_nff_file(&lines, 1, 1);
    // only the built-in ground plane remains
    assert_eq!(result.scene.shapes.len(), 1);
    assert_eq!(result.scene.lights.len(), 0);
    assert_eq!(result.scene.background.color, ColorVector::new(0, 0, 0));
}

#[test]
fn refraction_path_shades_through_glass() {
    // a transparent sphere in front of a plane: the center ray passes
    // through the glass and picks up color, so it is not the background
    let background_color = ColorVector::new(0, 0, 0);
    let glass = SceneMaterial::Solid(SolidMaterial::new(
        0,
        0,
        72089,  // refractive index 1.1
        32768,  // transparency 0.5
        ColorVector::new(FX_ONE, FX_ONE, FX_ONE),
    ));
    let shapes = vec![
        ShapeKind::Sphere(SphereShape {
            position: PosVector::new_default(),
            radius: FX_ONE,
            material: glass,
            id: 1,
        }),
        ShapeKind::Plane(PlaneShape {
            position: PosVector::new(0, 0, FX_ONE),
            d_val: 3 * FX_ONE,
            material: red_material(),
            id: 2,
        }),
    ];
    let lights = vec![PointLight::new(
        PosVector::new(0, 0, 5 * FX_ONE),
        ColorVector::new(FX_ONE, FX_ONE, FX_ONE),
    )];
    let scene = Scene::new(Background::new(background_color, 13107), shapes, lights);
    let camera = Camera::new(
        PosVector::new(0, 0, 5 * FX_ONE),
        PosVector::new_default(),
        PosVector::new(0, FX_ONE, 0),
        50 * FX_ONE,
        FOV50_PROJECTION_SCALE,
    );
    let rd = RenderData::new(9, 9, 3, 1, false);
    let tracer = RayTracer::new(camera, rd, scene);
    let center = tracer.get_pixel_color(4, 4);
    assert_ne!(center, background_color);
}

#[test]
fn sphere_bounding_planes_enclose() {
    // along x, a unit sphere centered at (2,0,0) spans one to three
    let s = SphereShape {
        position: PosVector::new(2 * FX_ONE, 0, 0),
        radius: FX_ONE,
        material: red_material(),
        id: 1,
    };
    let b = s.calculate_bounding_planes(PosVector::new_unit_x());
    assert_eq!(b.min, FX_ONE);
    assert_eq!(b.max, 3 * FX_ONE);
    assert!(b.min <= b.max);
}

#[test]
fn triangle_bounding_planes_enclose() {
    // projections 0, 2 and 1 along x: the bound spans zero to two
    let t = TriangleShape::new(
        PosVector::new(0, 0, 0),
        PosVector::new(2 * FX_ONE, FX_ONE, 0),
        PosVector::new(FX_ONE, 0, FX_ONE),
        red_material(),
        red_material(),
        1,
    );
    let b = t.calculate_bounding_planes(PosVector::new_unit_x());
    assert_eq!(b.min, 0);
    assert_eq!(b.max, 2 * FX_ONE);
}

#[test]
fn chessboard_alternates_by_quadrant() {
    let chess = SceneMaterial::Chessboard(rustraylib::material::ChessboardMaterial {
        color_even: ColorVector::new(FX_ONE, FX_ONE, FX_ONE),
        color_odd: ColorVector::new(0, 0, 0),
        material: rustraylib::material::BaseMaterial {
            gloss: 0,
            reflection: 0,
            refraction: 0,
            transparency: 0,
        },
        scale: 2 * FX_ONE,
    });
    // same-sign wrapped coordinates: an odd tile
    assert_eq!(chess.get_color(32768, 32768), ColorVector::new(0, 0, 0));
    // opposite signs: an even tile
    assert_eq!(
        chess.get_color(32768, -32768),
        ColorVector::new(FX_ONE, FX_ONE, FX_ONE)
    );
}

#[test]
fn nff_polygon_block_is_skipped() {
    let lines: Vec<String> = vec![
        "p 2".to_string(),
        "0 0 0".to_string(),
        "s 9 9 9 9".to_string(),
        "s 0 0 0 1".to_string(),
    ];
    let result = parse_nff_file(&lines, 1, 1);
    // the two counted lines vanish into the polygon block, including
    // the sphere-shaped one; only the last sphere lands in the scene
    assert_eq!(result.scene.shapes.len(), 2);
    match result.scene.get_shape(&2).unwrap().shape {
        ShapeKind::Sphere(sp) => assert_eq!(sp.radius, FX_ONE),
        _ => panic!("expected a sphere"),
    }
}
