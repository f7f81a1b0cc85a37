// Unit tests of the fixed-point scalar ops, vector math, ordering,
// culling, shading and camera movement.

use rasterizer::fx::{clamp_fx, div_fx, isqrt, mul_fx, FP_ONE};
use rasterizer::math::{look_at, reflect, translation_mat, Vec2, Vec3, Vec4};
use rasterizer::mesh::{Color, Mesh, Triangle, Vertex};
use rasterizer::order::sort_by_key;
use rasterizer::raster::{is_front_facing, shade_color};
use rasterizer::scene::{handle_keys, object_depth, Camera, Light, MoveKeys, World};

fn unit_up() -> Vec3 {
    Vec3 { x: 0, y: FP_ONE, z: 0 }
}

fn base_camera() -> Camera {
    Camera {
        position: Vec3 { x: 0, y: 0, z: 0 },
        target: Vec3 { x: 0, y: 0, z: -FP_ONE },
        up: unit_up(),
        pitch: 0,
        yaw: 0,
    }
}

#[test]
fn fixed_point_ops() {
    // Truncation toward zero, as a narrowing conversion rounds.
    assert_eq!(div_fx(7, 2), 3);
    assert_eq!(div_fx(-7, 2), -3);
    assert_eq!(div_fx(7, -2), -3);
    // 2.0 * 0.5 == 1.0 at the fixed-point scale.
    assert_eq!(mul_fx(2 * FP_ONE, FP_ONE / 2), FP_ONE);
    assert_eq!(clamp_fx(17, 0, 10), 10);
    assert_eq!(clamp_fx(-3, 0, 10), 0);
    assert_eq!(isqrt(0), 0);
    assert_eq!(isqrt(99), 9);
    assert_eq!(isqrt(100), 10);
}

#[test]
fn look_at_normalizes_directions() {
    // A 3-4-5 view direction normalizes exactly: the back row of the
    // view matrix is its negation.
    let m = look_at(
        Vec3 { x: 0, y: 0, z: 0 },
        Vec3 { x: 3 * FP_ONE, y: 4 * FP_ONE, z: 0 },
        unit_up(),
    );
    assert_eq!(m.r2, Vec4 { x: -6_000, y: -8_000, z: 0, w: 0 });
    assert_eq!(m.r0, Vec4 { x: 0, y: 0, z: FP_ONE, w: 0 });
    assert_eq!(m.r1, Vec4 { x: -8_000, y: 6_000, z: 0, w: 0 });
}

#[test]
fn reflection_about_plane() {
    // A ray going down-right off a floor with an upward normal leaves
    // up-right.
    let incident = Vec3 { x: FP_ONE, y: -FP_ONE, z: 0 };
    let normal = unit_up();
    let r = reflect(incident, normal);
    assert_eq!(r, Vec3 { x: FP_ONE, y: FP_ONE, z: 0 });
}

#[test]
fn look_at_identity_pose() {
    // A camera at the origin looking down negative z with y up gives the
    // identity view transform.
    let m = look_at(
        Vec3 { x: 0, y: 0, z: 0 },
        Vec3 { x: 0, y: 0, z: -FP_ONE },
        unit_up(),
    );
    assert_eq!(m.r0, Vec4 { x: FP_ONE, y: 0, z: 0, w: 0 });
    assert_eq!(m.r1, Vec4 { x: 0, y: FP_ONE, z: 0, w: 0 });
    assert_eq!(m.r2, Vec4 { x: 0, y: 0, z: FP_ONE, w: 0 });
    assert_eq!(m.r3, Vec4 { x: 0, y: 0, z: 0, w: FP_ONE });
}

#[test]
fn object_depth_reads_camera_space_z() {
    let cam = base_camera();
    let model = translation_mat(0, 0, -10 * FP_ONE);
    assert_eq!(object_depth(&cam, &model), -10 * FP_ONE);
    let nearer = translation_mat(0, 0, -2 * FP_ONE);
    assert_eq!(object_depth(&cam, &nearer), -2 * FP_ONE);
}

#[test]
fn sort_orders_keys_ascending() {
    let keys: Vec<(i128, usize)> = vec![(5, 0), (-3, 1), (4, 2)];
    let sorted = sort_by_key(&keys);
    assert_eq!(sorted, vec![(-3, 1), (4, 2), (5, 0)]);
}

#[test]
fn backface_culling_flips_with_vertex_order() {
    let p1 = Vec2 { x: 0, y: 0 };
    let p2 = Vec2 { x: 10 * FP_ONE, y: 0 };
    let p3 = Vec2 { x: 0, y: 10 * FP_ONE };
    // Exactly one of the two vertex orders is front-facing.
    assert!(is_front_facing(p1, p2, p3));
    assert!(!is_front_facing(p1, p3, p2));
    // A degenerate (collinear) triangle faces nowhere in either order.
    let q2 = Vec2 { x: FP_ONE, y: FP_ONE };
    let q3 = Vec2 { x: 2 * FP_ONE, y: 2 * FP_ONE };
    assert!(!is_front_facing(p1, q2, q3));
    assert!(!is_front_facing(p1, q3, q2));
}

#[test]
fn shading_determinism_and_unit_factor() {
    // Ambient 0.3 plus a light configured for diffuse 0.7 gives a
    // coloring factor of exactly 1.0: white stays white.
    let light = Light {
        position: Vec3 { x: 0, y: 0, z: -FP_ONE },
        target: Vec3 { x: 0, y: 0, z: 0 },
        intensity: 7_000,
        ambient: 3_000,
    };
    let norm = Vec3 { x: 0, y: 0, z: FP_ONE };
    let white = Color { r: 255, g: 255, b: 255, a: 255 };
    let shaded = shade_color(&light, norm, white);
    assert_eq!(shaded, Color { r: 255, g: 255, b: 255, a: 255 });
    // Identical inputs give identical output.
    let again = shade_color(&light, norm, white);
    assert_eq!(shaded, again);
    // Half factor darkens each channel by truncation; alpha unchanged.
    let dim = Light {
        position: Vec3 { x: 0, y: 0, z: -FP_ONE },
        target: Vec3 { x: 0, y: 0, z: 0 },
        intensity: 0,
        ambient: FP_ONE / 2,
    };
    let base = Color { r: 101, g: 50, b: 0, a: 9 };
    assert_eq!(shade_color(&dim, norm, base), Color { r: 50, g: 25, b: 0, a: 9 });
}

#[test]
fn shading_factor_above_one_saturates() {
    // Deliberate design choice, flagged here: with a coloring factor
    // above 1 the scaled channel saturates at 255 instead of wrapping
    // modulo 256 (matching a saturating narrowing conversion).
    let bright = Light {
        position: Vec3 { x: 0, y: 0, z: -FP_ONE },
        target: Vec3 { x: 0, y: 0, z: 0 },
        intensity: FP_ONE,
        ambient: FP_ONE,
    };
    let norm = Vec3 { x: 0, y: 0, z: FP_ONE };
    // Factor is ambient 1.0 + diffuse 1.0 = 2.0: 200 * 2 = 400 would
    // wrap to 144; it must come out as 255.
    let base = Color { r: 200, g: 120, b: 128, a: 77 };
    let shaded = shade_color(&bright, norm, base);
    assert_eq!(shaded, Color { r: 255, g: 240, b: 255, a: 77 });
}

#[test]
fn move_keys_strafe_left() {
    let mut cam = base_camera();
    let keys = MoveKeys { left: true, right: false, forward: false, backward: false };
    let view = handle_keys(&keys, &mut cam, FP_ONE);
    // Looking down -z, the position-minus-target direction is +z; its
    // cross with up points down -x, so the left key strafes to -x.
    assert_eq!(cam.position, Vec3 { x: -FP_ONE, y: 0, z: 0 });
    assert_eq!(cam.target, Vec3 { x: -FP_ONE, y: 0, z: -FP_ONE });
    assert_eq!(view.r3, Vec4 { x: 0, y: 0, z: 0, w: FP_ONE });
}

#[test]
fn move_keys_advance_forward() {
    let mut cam = base_camera();
    let keys = MoveKeys { left: false, right: false, forward: true, backward: false };
    handle_keys(&keys, &mut cam, FP_ONE);
    // The forward key subtracts the normalized position-minus-target
    // direction, moving the camera toward its target.
    assert_eq!(cam.position, Vec3 { x: 0, y: 0, z: -FP_ONE });
    assert_eq!(cam.target, Vec3 { x: 0, y: 0, z: -2 * FP_ONE });
}

#[test]
fn world_and_mesh_construction() {
    let verts = vec![
        Vertex { x: 0, y: 0, z: 0 },
        Vertex { x: FP_ONE, y: 0, z: 0 },
        Vertex { x: 0, y: FP_ONE, z: 0 },
    ];
    let color = Color { r: 9, g: 8, b: 7, a: 6 };
    let tris = vec![Triangle { v1: 0, v2: 1, v3: 2, color }];
    let mesh = Mesh::new(String::from("demo"), verts, tris);
    assert_eq!(mesh.verts().len(), 3);
    assert_eq!(mesh.tris().len(), 1);
    assert_eq!(mesh.tris()[0].color, color);
    let world = World::new(
        base_camera(),
        Light {
            position: Vec3 { x: 0, y: 0, z: -FP_ONE },
            target: Vec3 { x: 0, y: 0, z: 0 },
            intensity: FP_ONE,
            ambient: 3_000,
        },
        translation_mat(0, 0, 0),
        vec![rasterizer::scene::Object { mesh, offset_x: 0, offset_y: 0, offset_z: 0 }],
        320,
        200,
    );
    assert_eq!(world.width, 320);
    assert_eq!(world.height, 200);
    assert_eq!(world.models.len(), 1);
}
