//! Mesh geometry: vertices, indexed colored triangles, and the
//! immutable mesh that owns them.

use vstd::prelude::*;

use crate::fx::{iabs, LIM_IN};

verus! {

/// A flat RGBA color, one byte per channel.
#[derive(Clone, Copy, PartialEq, Eq, Structural, Debug)]
pub struct Color {
    pub r: u8,
    pub g: u8,
    pub b: u8,
    pub a: u8,
}

/// A point in mesh-local space, fixed-point scaled.
#[derive(Clone, Copy, PartialEq, Eq, Structural, Debug)]
pub struct Vertex {
    pub x: i128,
    pub y: i128,
    pub z: i128,
}

/// Three indices into the owning mesh's vertex list, plus a flat color.
#[derive(Clone, Copy, PartialEq, Eq, Structural, Debug)]
pub struct Triangle {
    pub v1: usize,
    pub v2: usize,
    pub v3: usize,
    pub color: Color,
}

/// A named, immutable collection of vertices and indexed triangles.
pub struct Mesh {
    pub name: String,
    pub verts: Vec<Vertex>,
    pub tris: Vec<Triangle>,
}

/// Every component of `v` has magnitude at most `m`.
pub open spec fn vertex_in(v: Vertex, m: int) -> bool {
    iabs(v.x as int) <= m && iabs(v.y as int) <= m && iabs(v.z as int) <= m
}

/// Mesh invariant: every triangle index is valid for the vertex list and
/// every vertex lies within the scene input range.
pub open spec fn mesh_wf(m: Mesh) -> bool {
    &&& forall|i: int|
        0 <= i < m.tris@.len() ==> (#[trigger] m.tris@[i]).v1 < m.verts@.len()
            && m.tris@[i].v2 < m.verts@.len() && m.tris@[i].v3 < m.verts@.len()
    &&& forall|i: int| 0 <= i < m.verts@.len() ==> vertex_in(#[trigger] m.verts@[i], LIM_IN as int)
}

impl Mesh {
    /// Builds a mesh; the caller guarantees valid triangle indices and
    /// in-range vertex coordinates for the mesh's whole lifetime.
    pub fn new(name: String, verts: Vec<Vertex>, tris: Vec<Triangle>) -> (r: Mesh)
        requires
            forall|i: int|
                0 <= i < tris@.len() ==> (#[trigger] tris@[i]).v1 < verts@.len() && tris@[i].v2
                    < verts@.len() && tris@[i].v3 < verts@.len(),
            forall|i: int| 0 <= i < verts@.len() ==> vertex_in(#[trigger] verts@[i], LIM_IN as int),
        ensures
            mesh_wf(r),
            r.verts == verts,
            r.tris == tris,
            r.name == name,
    {
        Mesh { name, verts, tris }
    }

    /// The vertex list.
    pub fn verts(&self) -> (r: &Vec<Vertex>)
        ensures
            r == &self.verts,
    {
        &self.verts
    }

    /// The triangle list.
    pub fn tris(&self) -> (r: &Vec<Triangle>)
        ensures
            r == &self.tris,
    {
        &self.tris
    }
}

} // verus!
