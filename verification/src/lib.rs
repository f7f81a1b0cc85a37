//! A software 3D rasterizer over fixed-point coordinates.
//!
//! Scene geometry, camera and light are held as fixed-point scalars
//! ([`fx::FP_ONE`] sub-units per 1.0). The pipeline transforms mesh
//! vertices to screen space, orders objects and triangles back to front
//! (painter's algorithm), culls back faces, flat-shades each surviving
//! triangle and fills its pixels into an RGBA byte buffer.

pub mod fx;
pub mod math;
pub mod mesh;
pub mod order;
pub mod raster;
pub mod render;
pub mod scene;
