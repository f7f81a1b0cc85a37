// End-to-end tests of the render pipeline: projection, visibility
// ordering, culling, shading and rasterization.

use rasterizer::fx::FP_ONE;
use rasterizer::math::{Mat4, Vec2, Vec3, Vec4};
use rasterizer::mesh::{Color, Mesh, Triangle, Vertex};
use rasterizer::render::{project_vertex, ScreenVert};
use rasterizer::scene::{Camera, Light, Object, World};

fn identity_mat() -> Mat4 {
    Mat4 {
        r0: Vec4 { x: FP_ONE, y: 0, z: 0, w: 0 },
        r1: Vec4 { x: 0, y: FP_ONE, z: 0, w: 0 },
        r2: Vec4 { x: 0, y: 0, z: FP_ONE, w: 0 },
        r3: Vec4 { x: 0, y: 0, z: 0, w: FP_ONE },
    }
}

// Perspective-style projection: x and y divided by -z, depth mapped so
// that anything in front of the camera lands at normalized depth 1.
fn simple_proj() -> Mat4 {
    Mat4 {
        r0: Vec4 { x: FP_ONE, y: 0, z: 0, w: 0 },
        r1: Vec4 { x: 0, y: FP_ONE, z: 0, w: 0 },
        r2: Vec4 { x: 0, y: 0, z: -FP_ONE, w: 0 },
        r3: Vec4 { x: 0, y: 0, z: -FP_ONE, w: 0 },
    }
}

fn forward_camera() -> Camera {
    Camera {
        position: Vec3 { x: 0, y: 0, z: 0 },
        target: Vec3 { x: 0, y: 0, z: -FP_ONE },
        up: Vec3 { x: 0, y: FP_ONE, z: 0 },
        pitch: 0,
        yaw: 0,
    }
}

fn neutral_light() -> Light {
    // Ambient exactly 1.0 and zero intensity: the coloring factor is 1,
    // so triangles keep their base color.
    Light {
        position: Vec3 { x: -FP_ONE, y: FP_ONE, z: -FP_ONE },
        target: Vec3 { x: 0, y: 0, z: 0 },
        intensity: 0,
        ambient: FP_ONE,
    }
}

// One large triangle facing the camera; vertex order chosen so that its
// screen-space winding is front-facing under the y-flip.
fn big_triangle_mesh(color: Color) -> Mesh {
    let verts = vec![
        Vertex { x: -2 * FP_ONE, y: -2 * FP_ONE, z: 0 },
        Vertex { x: 2 * FP_ONE, y: -2 * FP_ONE, z: 0 },
        Vertex { x: 0, y: 2 * FP_ONE, z: 0 },
    ];
    let tris = vec![Triangle { v1: 0, v2: 2, v3: 1, color }];
    Mesh::new(String::from("tri"), verts, tris)
}

fn pixel(frame: &[u8], width: usize, x: usize, y: usize) -> (u8, u8, u8, u8) {
    let i = (y * width + x) * 4;
    (frame[i], frame[i + 1], frame[i + 2], frame[i + 3])
}

#[test]
fn depth_clamp_boundaries() {
    // Under the identity matrix the vertex's z is its normalized depth.
    let pvm = identity_mat();
    let at = |z: i128| -> ScreenVert {
        project_vertex(&pvm, &Vertex { x: 0, y: 0, z }, 500, 500)
    };
    assert!(matches!(at(0), ScreenVert::Vis { .. }));
    assert!(matches!(at(FP_ONE), ScreenVert::Vis { .. }));
    assert!(matches!(at(-1), ScreenVert::NotVis));
    assert!(matches!(at(FP_ONE + 1), ScreenVert::NotVis));
}

#[test]
fn screen_mapping_round_trip() {
    let pvm = identity_mat();
    let project = |x: i128, y: i128| -> Vec2 {
        match project_vertex(&pvm, &Vertex { x, y, z: 0 }, 500, 500) {
            ScreenVert::Vis { p } => p,
            ScreenVert::NotVis => panic!("expected a visible vertex"),
        }
    };
    // ndc (0, 0) maps to the screen center.
    let c = project(0, 0);
    assert_eq!(c, Vec2 { x: 250 * FP_ONE, y: 250 * FP_ONE });
    // ndc (-1, -1) maps to (0, height).
    let bl = project(-FP_ONE, -FP_ONE);
    assert_eq!(bl, Vec2 { x: 0, y: 500 * FP_ONE });
    // ndc (1, 1) maps to (width, 0).
    let tr = project(FP_ONE, FP_ONE);
    assert_eq!(tr, Vec2 { x: 500 * FP_ONE, y: 0 });
}

#[test]
fn occlusion_order_nearer_object_wins() {
    let far = big_triangle_mesh(Color { r: 255, g: 0, b: 0, a: 255 });
    let near = big_triangle_mesh(Color { r: 0, g: 255, b: 0, a: 255 });
    let world = World::new(
        forward_camera(),
        neutral_light(),
        simple_proj(),
        vec![
            // Listed nearer-first on purpose: the depth sort must fix the order.
            Object { mesh: near, offset_x: 0, offset_y: 0, offset_z: -2 * FP_ONE },
            Object { mesh: far, offset_x: 0, offset_y: 0, offset_z: -10 * FP_ONE },
        ],
        500,
        500,
    );
    let view = world.camera.generate_view_mat();
    let mut frame: Vec<u8> = vec![0u8; 500 * 500 * 4];
    world.draw(view, &mut frame);
    assert_eq!(frame.len(), 500 * 500 * 4);
    // Both objects cover the center region; only the nearer (green) color
    // may remain there.
    assert_eq!(pixel(&frame, 500, 250, 280), (0, 255, 0, 255));
    assert_eq!(pixel(&frame, 500, 250, 300), (0, 255, 0, 255));
    // A corner outside both triangles keeps the clear color.
    assert_eq!(pixel(&frame, 500, 0, 0), (255, 255, 255, 255));
}

#[test]
fn buffer_clear_empty_scene_all_white() {
    let world = World::new(
        forward_camera(),
        neutral_light(),
        simple_proj(),
        Vec::new(),
        64,
        64,
    );
    let view = world.camera.generate_view_mat();
    let mut frame: Vec<u8> = vec![7u8; 64 * 64 * 4];
    world.draw(view, &mut frame);
    assert_eq!(frame.len(), 64 * 64 * 4);
    assert!(frame.iter().all(|&b| b == 255));
}

#[test]
fn bounds_safety_offscreen_triangle() {
    // A triangle whose bounding box reaches far beyond the 100x100 image:
    // the fill must stay inside the buffer and complete without fault.
    let world = World::new(
        forward_camera(),
        neutral_light(),
        simple_proj(),
        Vec::new(),
        100,
        100,
    );
    let mut frame: Vec<u8> = vec![255u8; 100 * 100 * 4];
    let t1 = Vec2 { x: -50 * FP_ONE, y: 10 * FP_ONE };
    let t2 = Vec2 { x: 150 * FP_ONE, y: 10 * FP_ONE };
    let t3 = Vec2 { x: 150 * FP_ONE, y: 60 * FP_ONE };
    let color = Color { r: 1, g: 2, b: 3, a: 4 };
    let norm = Vec3 { x: 0, y: 0, z: FP_ONE };
    world.draw_triangle(t1, t2, t3, &color, &mut frame, &norm);
    assert_eq!(frame.len(), 100 * 100 * 4);
    // The triangle's interior row got painted where it crosses the image.
    assert_eq!(pixel(&frame, 100, 99, 30), (1, 2, 3, 4));
    // The fill stops at the last column: a triangle crossing the right
    // edge never wraps into the first column of the next row.
    assert_eq!(pixel(&frame, 100, 0, 30), (255, 255, 255, 255));
    assert_eq!(pixel(&frame, 100, 0, 31), (255, 255, 255, 255));
}

#[test]
fn draw_is_deterministic() {
    // Two draws of equal scenes with the same view matrix leave
    // byte-identical frames.
    let mut frames: Vec<Vec<u8>> = Vec::new();
    for _ in 0..2 {
        let mesh = big_triangle_mesh(Color { r: 10, g: 20, b: 30, a: 255 });
        let world = World::new(
            forward_camera(),
            neutral_light(),
            simple_proj(),
            vec![Object { mesh, offset_x: 0, offset_y: 0, offset_z: -3 * FP_ONE }],
            256,
            256,
        );
        let view = world.camera.generate_view_mat();
        let mut frame: Vec<u8> = vec![0u8; 256 * 256 * 4];
        world.draw(view, &mut frame);
        frames.push(frame);
    }
    assert_eq!(frames[0], frames[1]);
}

#[test]
fn exactly_one_vertex_order_is_drawn() {
    // The same triangle with its two vertex orders: the front-facing
    // order paints the screen center, the reversed order is culled and
    // leaves the cleared frame untouched.
    let green = Color { r: 0, g: 255, b: 0, a: 255 };
    for (reversed, expect) in [(false, (0, 255, 0, 255)), (true, (255, 255, 255, 255))] {
        let verts = vec![
            Vertex { x: -2 * FP_ONE, y: -2 * FP_ONE, z: 0 },
            Vertex { x: 2 * FP_ONE, y: -2 * FP_ONE, z: 0 },
            Vertex { x: 0, y: 2 * FP_ONE, z: 0 },
        ];
        let tris = if reversed {
            vec![Triangle { v1: 0, v2: 1, v3: 2, color: green }]
        } else {
            vec![Triangle { v1: 0, v2: 2, v3: 1, color: green }]
        };
        let mesh = Mesh::new(String::from("tri"), verts, tris);
        let world = World::new(
            forward_camera(),
            neutral_light(),
            simple_proj(),
            vec![Object { mesh, offset_x: 0, offset_y: 0, offset_z: -2 * FP_ONE }],
            500,
            500,
        );
        let view = world.camera.generate_view_mat();
        let mut frame: Vec<u8> = vec![0u8; 500 * 500 * 4];
        world.draw(view, &mut frame);
        assert_eq!(pixel(&frame, 500, 250, 280), expect);
    }
}

#[test]
fn winding_consistency_vertices_inside() {
    // A front-facing screen triangle: its own vertices and its centroid
    // pixel must be filled by the rasterizer.
    let world = World::new(
        forward_camera(),
        neutral_light(),
        simple_proj(),
        Vec::new(),
        100,
        100,
    );
    let t1 = Vec2 { x: 10 * FP_ONE, y: 10 * FP_ONE };
    let t2 = Vec2 { x: 30 * FP_ONE, y: 10 * FP_ONE };
    let t3 = Vec2 { x: 20 * FP_ONE, y: 30 * FP_ONE };
    assert!(rasterizer::raster::is_front_facing(t1, t2, t3));
    let mut frame: Vec<u8> = vec![0u8; 100 * 100 * 4];
    let color = Color { r: 200, g: 150, b: 100, a: 255 };
    let norm = Vec3 { x: 0, y: 0, z: FP_ONE };
    world.draw_triangle(t1, t2, t3, &color, &mut frame, &norm);
    assert_eq!(pixel(&frame, 100, 10, 10), (200, 150, 100, 255));
    assert_eq!(pixel(&frame, 100, 30, 10), (200, 150, 100, 255));
    assert_eq!(pixel(&frame, 100, 20, 30), (200, 150, 100, 255));
    // The pixel at the truncated centroid.
    assert_eq!(pixel(&frame, 100, 20, 16), (200, 150, 100, 255));
    // A corner far outside stays untouched.
    assert_eq!(pixel(&frame, 100, 0, 0), (0, 0, 0, 0));
}
