//! The per-frame render pipeline: vertex projection and the painter's
//! algorithm draw loop.

use vstd::prelude::*;

use crate::fx::{div_fx, divt, iabs, FP_ONE, LIM_CLIP, LIM_IN, LIM_MAT, LIM_NDC, LIM_PVM, LIM_SCR,
    LIM_VM};
use crate::math::{
    cross3, m4, m4_in, mat_mul, normalize, s_cross3, s_mat_mul, s_normalize, s_sub3, s_transform,
    s_translation, sub3, transform, v2, v2_in, v3, v3_in, v4, v4_in, Mat4, Vec2, Vec3, Vec4, M4,
    V2, V3, V4,
};
use crate::mesh::{vertex_in, Color, Triangle, Vertex};
use crate::order::{lemma_perm_elements, s_sort, sort_by_key};
use crate::raster::{clear_frame, covered, s_byte_of, s_cross2, s_shade};
use crate::scene::{object_wf, s_object_depth, world_wf, Light, Object, World};

verus! {

/// Magnitude bound for camera-space vertex components.
pub const LIM_CAM: i128 = 1_600_000_000_000_000_000;

/// Magnitude bound for world-space vertex components.
pub const LIM_WORLD: i128 = 4_000_000_000_000;

/// A projected vertex: its screen position, or a marker that the vertex
/// cannot be used (its depth lies outside [0, 1], its homogeneous w is
/// zero, or its coordinates blew up past the finite range).
#[derive(Clone, Copy, PartialEq, Eq, Structural, Debug)]
pub enum ScreenVert {
    Vis { p: Vec2 },
    NotVis,
}

/// A mesh vertex as a homogeneous point.
pub open spec fn vert4(vt: Vertex) -> V4 {
    V4 { x: vt.x as int, y: vt.y as int, z: vt.z as int, w: FP_ONE as int }
}

/// The clip-space position of a mesh vertex under a combined
/// projection-view-model matrix.
pub open spec fn s_clip_of(m: M4, vt: Vertex) -> V4 {
    s_transform(m, vert4(vt))
}

/// The translation-only model matrix of an object.
pub open spec fn s_model_mat(o: Object) -> M4 {
    s_translation(o.offset_x as int, o.offset_y as int, o.offset_z as int)
}

/// The world-space position of vertex `k` of an object's mesh.
pub open spec fn s_world_xyz(o: Object, k: int) -> V3 {
    let p = s_transform(s_model_mat(o), vert4(o.mesh.verts@[k]));
    V3 { x: p.x, y: p.y, z: p.z }
}

/// The face normal of a triangle: the cross product of its two
/// normalized world-space edge directions out of the first vertex.
pub open spec fn s_face_normal(o: Object, t: Triangle) -> V3 {
    s_cross3(
        s_normalize(s_sub3(s_world_xyz(o, t.v2 as int), s_world_xyz(o, t.v1 as int))),
        s_normalize(s_sub3(s_world_xyz(o, t.v3 as int), s_world_xyz(o, t.v1 as int))),
    )
}

/// Byte `i` of the frame holds value `b` because some triangle of the
/// scene, flat-shaded under the world's light, paints it.
pub open spec fn s_painted_byte(w: World, i: int, b: u8) -> bool {
    exists|oi: int, ti: int|
        0 <= oi < w.models@.len() && 0 <= ti < w.models@[oi].mesh.tris@.len() && b == s_byte_of(
            s_shade(
                w.light,
                s_face_normal(w.models@[oi], #[trigger] w.models@[oi].mesh.tris@[ti]),
                w.models@[oi].mesh.tris@[ti].color,
            ),
            i % 4,
        )
}

/// Normalized device coordinate: the clip coordinate perspective-divided
/// by w.
pub open spec fn s_ndc(c: int, w: int) -> int {
    divt(c * (FP_ONE as int), w)
}

/// A clip-space vertex is usable iff w is nonzero, its normalized depth
/// lies inside [0, 1] inclusive, and its normalized x and y are small
/// enough to stand for a finite projection.
pub open spec fn s_visible(clip: V4) -> bool {
    &&& clip.w != 0
    &&& 0 <= s_ndc(clip.z, clip.w) <= FP_ONE as int
    &&& iabs(s_ndc(clip.x, clip.w)) <= LIM_NDC as int
    &&& iabs(s_ndc(clip.y, clip.w)) <= LIM_NDC as int
}

/// Screen x of a normalized device x: `(ndc_x + 1) * 0.5 * width`.
pub open spec fn s_screen_x(nx: int, w: int) -> int {
    divt((nx + FP_ONE as int) * w, 2)
}

/// Screen y of a normalized device y: `(1 - ndc_y) * 0.5 * height`,
/// flipped because screen rows grow downward.
pub open spec fn s_screen_y(ny: int, h: int) -> int {
    divt((FP_ONE as int - ny) * h, 2)
}

/// Projects one mesh vertex to the screen through a combined
/// projection-view-model matrix, marking it not visible when its
/// normalized depth leaves [0, 1] or the projection is unusable.
pub fn project_vertex(pvm: &Mat4, vert: &Vertex, width: usize, height: usize) -> (r: ScreenVert)
    requires
        m4_in(m4(*pvm), LIM_PVM as int),
        vertex_in(*vert, LIM_IN as int),
        width <= crate::fx::LIM_DIM,
        height <= crate::fx::LIM_DIM,
    ensures
        (r is Vis) == s_visible(s_clip_of(m4(*pvm), *vert)),
        r is Vis ==> v2(r->p) == (V2 {
            x: s_screen_x(s_ndc(s_clip_of(m4(*pvm), *vert).x, s_clip_of(m4(*pvm), *vert).w),
                width as int),
            y: s_screen_y(s_ndc(s_clip_of(m4(*pvm), *vert).y, s_clip_of(m4(*pvm), *vert).w),
                height as int),
        }),
        r is Vis ==> v2_in(v2(r->p), LIM_SCR as int),
{
    let hv: Vec4 = Vec4 { x: vert.x, y: vert.y, z: vert.z, w: FP_ONE };
    let clip: Vec4 = transform(*pvm, hv, Ghost(LIM_PVM as int), Ghost(LIM_IN as int));
    proof {
        assert(v4_in(v4(clip), LIM_CLIP as int));
    }
    if clip.w == 0 {
        return ScreenVert::NotVis;
    }
    let ndc_x: i128 = div_fx(clip.x * FP_ONE, clip.w);
    let ndc_y: i128 = div_fx(clip.y * FP_ONE, clip.w);
    let ndc_z: i128 = div_fx(clip.z * FP_ONE, clip.w);
    if ndc_z < 0 || ndc_z > FP_ONE {
        return ScreenVert::NotVis;
    }
    if ndc_x < -LIM_NDC || ndc_x > LIM_NDC || ndc_y < -LIM_NDC || ndc_y > LIM_NDC {
        return ScreenVert::NotVis;
    }
    proof {
        assert(iabs((ndc_x + FP_ONE) * (width as int)) <= LIM_SCR as int && iabs(
            (FP_ONE - ndc_y) * (height as int),
        ) <= LIM_SCR as int) by (nonlinear_arith)
            requires
                iabs(ndc_x as int) <= LIM_NDC as int,
                iabs(ndc_y as int) <= LIM_NDC as int,
                0 <= width as int <= 100_000,
                0 <= height as int <= 100_000,
        ;
    }
    let sx: i128 = div_fx((ndc_x + FP_ONE) * (width as i128), 2);
    let sy: i128 = div_fx((FP_ONE - ndc_y) * (height as i128), 2);
    ScreenVert::Vis { p: Vec2 { x: sx, y: sy } }
}

/// The screen point a visible clip-space vertex maps to.
pub open spec fn s_screen_pt(clip: V4, w: int, h: int) -> V2 {
    V2 { x: s_screen_x(s_ndc(clip.x, clip.w), w), y: s_screen_y(s_ndc(clip.y, clip.w), h) }
}

/// The object-ordering keys: for each object, the camera-space depth of
/// its origin under a view matrix recomputed from the current camera,
/// paired with the object's index.
pub open spec fn s_obj_keys(w: World) -> Seq<(i128, usize)> {
    Seq::new(
        w.models@.len(),
        |i: int| (s_object_depth(w.camera, s_model_mat(w.models@[i])) as i128, i as usize),
    )
}

/// The triangle-ordering key: the average camera-space z of the
/// triangle's three vertices under the view-times-model matrix.
pub open spec fn s_tri_key(o: Object, vm: M4, t: int) -> int {
    let tr = o.mesh.tris@[t];
    divt(
        s_transform(vm, vert4(o.mesh.verts@[tr.v1 as int])).z + s_transform(
            vm,
            vert4(o.mesh.verts@[tr.v2 as int]),
        ).z + s_transform(vm, vert4(o.mesh.verts@[tr.v3 as int])).z,
        3,
    )
}

/// The triangle-ordering keys of one object, each paired with its
/// triangle's index.
pub open spec fn s_tri_keys(o: Object, vm: M4) -> Seq<(i128, usize)> {
    Seq::new(o.mesh.tris@.len(), |t: int| (s_tri_key(o, vm, t) as i128, t as usize))
}

/// The frame after one triangle's pixels are filled: every byte of a
/// covered pixel slot takes the shaded color, all others keep their
/// value (the byte rule of `draw_triangle`).
pub open spec fn s_paint_tri(
    l: Light,
    frame: Seq<u8>,
    t1: V2,
    t2: V2,
    t3: V2,
    w: int,
    h: int,
    norm: V3,
    c: Color,
) -> Seq<u8> {
    Seq::new(
        frame.len(),
        |i: int|
            if covered(t1, t2, t3, w, h, frame.len() as int, i) {
                s_byte_of(s_shade(l, norm, c), i % 4)
            } else {
                frame[i]
            },
    )
}

/// The frame after one triangle of an object is processed: skipped
/// whole when any vertex is marked not visible or when the screen
/// winding is not front-facing, painted otherwise.
pub open spec fn s_tri_step(w: World, o: Object, pvm: M4, frame: Seq<u8>, t: int) -> Seq<u8> {
    let tr = o.mesh.tris@[t];
    let c1 = s_clip_of(pvm, o.mesh.verts@[tr.v1 as int]);
    let c2 = s_clip_of(pvm, o.mesh.verts@[tr.v2 as int]);
    let c3 = s_clip_of(pvm, o.mesh.verts@[tr.v3 as int]);
    if s_visible(c1) && s_visible(c2) && s_visible(c3) {
        let p1 = s_screen_pt(c1, w.width as int, w.height as int);
        let p2 = s_screen_pt(c2, w.width as int, w.height as int);
        let p3 = s_screen_pt(c3, w.width as int, w.height as int);
        if s_cross2(p1, p2, p3) > 0 {
            s_paint_tri(
                w.light,
                frame,
                p1,
                p2,
                p3,
                w.width as int,
                w.height as int,
                s_face_normal(o, tr),
                tr.color,
            )
        } else {
            frame
        }
    } else {
        frame
    }
}

/// The frame after the first `n` entries of an object's depth-sorted
/// triangle list are processed, in order.
pub open spec fn s_tris_upto(
    w: World,
    o: Object,
    pvm: M4,
    ts: Seq<(i128, usize)>,
    frame: Seq<u8>,
    n: int,
) -> Seq<u8>
    decreases n,
{
    if n <= 0 {
        frame
    } else {
        s_tri_step(w, o, pvm, s_tris_upto(w, o, pvm, ts, frame, n - 1), ts[n - 1].1 as int)
    }
}

/// The frame after one whole object is drawn: its triangles processed
/// in ascending average-camera-depth order.
pub open spec fn s_obj_step(w: World, view: M4, frame: Seq<u8>, oi: int) -> Seq<u8> {
    let o = w.models@[oi];
    let vm = s_mat_mul(view, s_model_mat(o));
    let pvm = s_mat_mul(m4(w.proj_mat), vm);
    let ts = s_sort(s_tri_keys(o, vm));
    s_tris_upto(w, o, pvm, ts, frame, ts.len() as int)
}

/// The frame after the first `n` entries of the depth-sorted object
/// list are drawn, in order.
pub open spec fn s_objs_upto(
    w: World,
    view: M4,
    ord: Seq<(i128, usize)>,
    frame: Seq<u8>,
    n: int,
) -> Seq<u8>
    decreases n,
{
    if n <= 0 {
        frame
    } else {
        s_obj_step(w, view, s_objs_upto(w, view, ord, frame, n - 1), ord[n - 1].1 as int)
    }
}

/// The frame a draw call produces: `len` bytes cleared to opaque white,
/// then every object painted back to front — objects in ascending
/// origin depth, each object's triangles in ascending average depth —
/// so nearer pixels overwrite farther ones.
pub open spec fn s_rendered(w: World, view: M4, len: nat) -> Seq<u8> {
    let ord = s_sort(s_obj_keys(w));
    s_objs_upto(w, view, ord, Seq::new(len, |i: int| 255u8), ord.len() as int)
}

/// Rendering is deterministic: the frame a draw call leaves is a
/// function of the world, the view matrix and the buffer length alone,
/// so two calls on equal inputs leave byte-identical frames.
pub proof fn lemma_draw_deterministic(wa: World, wb: World, va: M4, vb: M4, la: nat, lb: nat)
    requires
        wa == wb,
        va == vb,
        la == lb,
    ensures
        s_rendered(wa, va, la) == s_rendered(wb, vb, lb),
{
}

impl World {
    /// Draws one frame: clears the buffer to opaque white, orders the
    /// objects back to front by the camera-space depth of their origin,
    /// and for each object projects its vertices, orders its triangles
    /// by average camera-space depth, culls back faces, and flat-shades
    /// and rasterizes the rest. The final buffer is exactly what
    /// [`s_rendered`] denotes for this scene and view; it keeps its
    /// length, and on an empty scene every byte is left opaque white.
    #[verifier::rlimit(100)]
    #[verifier::spinoff_prover]
    pub fn draw(&self, view_mat: Mat4, frame: &mut Vec<u8>)
        requires
            world_wf(*self),
            m4_in(m4(view_mat), LIM_MAT as int),
        ensures
            final(frame)@.len() == old(frame)@.len(),
            final(frame)@ == s_rendered(*self, m4(view_mat), old(frame)@.len()),
            forall|i: int|
                0 <= i < final(frame)@.len() ==> final(frame)@[i] == 255u8 || s_painted_byte(
                    *self,
                    i,
                    final(frame)@[i],
                ),
            self.models@.len() == 0 ==> forall|i: int|
                0 <= i < final(frame)@.len() ==> final(frame)@[i] == 255u8,
    {
        clear_frame(frame);
        proof {
            assert(frame@ =~= Seq::new(old(frame)@.len(), |i: int| 255u8));
        }
        let mut order_keys: Vec<(i128, usize)> = Vec::new();
        let mut oi: usize = 0;
        while oi < self.models.len()
            invariant
                world_wf(*self),
                oi <= self.models@.len(),
                order_keys@.len() == oi,
                forall|j: int| 0 <= j < order_keys@.len() ==> (#[trigger] order_keys@[j]).1 < self.models@.len(),
                forall|j: int|
                    0 <= j < order_keys@.len() ==> #[trigger] order_keys@[j] == s_obj_keys(
                        *self,
                    )[j],
            decreases self.models@.len() - oi,
        {
            let model = &self.models[oi];
            proof {
                assert(object_wf(self.models@[oi as int]));
            }
            let mmat: Mat4 = crate::math::translation_mat(
                model.offset_x,
                model.offset_y,
                model.offset_z,
            );
            let key: i128 = crate::scene::object_depth(&self.camera, &mmat);
            proof {
                assert(m4(mmat) == s_model_mat(self.models@[oi as int]));
                assert(key as int == s_object_depth(self.camera, s_model_mat(self.models@[oi as int])));
                assert(key == s_object_depth(self.camera, s_model_mat(self.models@[oi as int])) as i128);
            }
            order_keys.push((key, oi));
            oi += 1;
        }
        let sorted: Vec<(i128, usize)> = sort_by_key(&order_keys);
        proof {
            assert(order_keys@ =~= s_obj_keys(*self));
            assert(sorted@ == s_sort(s_obj_keys(*self)));
            lemma_perm_elements(order_keys@, sorted@);
            assert forall|j: int| 0 <= j < sorted@.len() implies (#[trigger] sorted@[j]).1
                < self.models@.len() by {
                assert(order_keys@.contains(sorted@[j]));
                let k = choose|k: int| 0 <= k < order_keys@.len() && order_keys@[k] == sorted@[j];
            }
        }
        let mut si: usize = 0;
        while si < sorted.len()
            invariant
                world_wf(*self),
                m4_in(m4(view_mat), LIM_MAT as int),
                si <= sorted@.len(),
                sorted@.len() == self.models@.len(),
                forall|j: int| 0 <= j < sorted@.len() ==> (#[trigger] sorted@[j]).1 < self.models@.len(),
                sorted@ == s_sort(s_obj_keys(*self)),
                frame@ == s_objs_upto(
                    *self,
                    m4(view_mat),
                    sorted@,
                    Seq::new(old(frame)@.len(), |i: int| 255u8),
                    si as int,
                ),
                frame@.len() == old(frame)@.len(),
                forall|i: int|
                    0 <= i < frame@.len() ==> frame@[i] == 255u8 || s_painted_byte(
                        *self,
                        i,
                        frame@[i],
                    ),
                self.models@.len() == 0 ==> forall|i: int|
                    0 <= i < frame@.len() ==> frame@[i] == 255u8,
            decreases sorted@.len() - si,
        {
            let oi2: usize = sorted[si].1;
            let model = &self.models[oi2];
            proof {
                assert(object_wf(self.models@[oi2 as int]));
            }
            let mmat: Mat4 = crate::math::translation_mat(
                model.offset_x,
                model.offset_y,
                model.offset_z,
            );
            proof {
                assert(m4(mmat) == s_model_mat(*model));
            }
            let ghost f0 = frame@;
            let vm: Mat4 = mat_mul(view_mat, mmat, Ghost(LIM_MAT as int), Ghost(LIM_IN as int));
            let pvm: Mat4 = mat_mul(self.proj_mat, vm, Ghost(LIM_MAT as int), Ghost(LIM_VM as int));
            proof {
                assert(m4(vm) == s_mat_mul(m4(view_mat), s_model_mat(*model)));
                assert(m4(pvm) == s_mat_mul(m4(self.proj_mat), m4(vm)));
            }

            let mut screen_verts: Vec<ScreenVert> = Vec::new();
            let mut zbuffer: Vec<Vec4> = Vec::new();
            let mut transformed_verts: Vec<Vec4> = Vec::new();
            let mut vi: usize = 0;
            while vi < model.mesh.verts.len()
                invariant
                    world_wf(*self),
                    object_wf(*model),
                    vi <= model.mesh.verts@.len(),
                    screen_verts@.len() == vi,
                    zbuffer@.len() == vi,
                    transformed_verts@.len() == vi,
                    m4_in(m4(vm), LIM_VM as int),
                    m4_in(m4(pvm), LIM_PVM as int),
                    m4_in(m4(mmat), LIM_IN as int),
                    forall|k: int|
                        0 <= k < vi ==> ((#[trigger] screen_verts@[k]) is Vis ==> v2_in(
                            v2(screen_verts@[k]->p),
                            LIM_SCR as int,
                        )),
                    forall|k: int|
                        0 <= k < vi ==> ((#[trigger] screen_verts@[k]) is Vis) == s_visible(
                            s_clip_of(m4(pvm), model.mesh.verts@[k]),
                        ),
                    forall|k: int|
                        0 <= k < vi ==> ((#[trigger] screen_verts@[k]) is Vis ==> v2(
                            screen_verts@[k]->p,
                        ) == s_screen_pt(
                            s_clip_of(m4(pvm), model.mesh.verts@[k]),
                            self.width as int,
                            self.height as int,
                        )),
                    forall|k: int| 0 <= k < vi ==> v4_in(v4(#[trigger] zbuffer@[k]), LIM_CAM as int),
                    forall|k: int|
                        0 <= k < vi ==> v4(#[trigger] zbuffer@[k]) == s_transform(
                            m4(vm),
                            vert4(model.mesh.verts@[k]),
                        ),
                    forall|k: int|
                        0 <= k < vi ==> v4_in(v4(#[trigger] transformed_verts@[k]), LIM_WORLD as int),
                    forall|k: int|
                        0 <= k < vi ==> v4(#[trigger] transformed_verts@[k]) == s_transform(
                            m4(mmat),
                            vert4(model.mesh.verts@[k]),
                        ),
                decreases model.mesh.verts@.len() - vi,
            {
                let vert: Vertex = model.mesh.verts[vi];
                let hv: Vec4 = Vec4 { x: vert.x, y: vert.y, z: vert.z, w: FP_ONE };
                let sv: ScreenVert = project_vertex(&pvm, &vert, self.width, self.height);
                screen_verts.push(sv);
                let zv: Vec4 = transform(vm, hv, Ghost(LIM_VM as int), Ghost(LIM_IN as int));
                zbuffer.push(zv);
                let wv: Vec4 = transform(mmat, hv, Ghost(LIM_IN as int), Ghost(LIM_IN as int));
                transformed_verts.push(wv);
                vi += 1;
            }

            let mut tri_keys: Vec<(i128, usize)> = Vec::new();
            let mut ti: usize = 0;
            while ti < model.mesh.tris.len()
                invariant
                    world_wf(*self),
                    object_wf(*model),
                    ti <= model.mesh.tris@.len(),
                    tri_keys@.len() == ti,
                    zbuffer@.len() == model.mesh.verts@.len(),
                    forall|k: int|
                        0 <= k < zbuffer@.len() ==> v4_in(v4(#[trigger] zbuffer@[k]), LIM_CAM as int),
                    forall|k: int|
                        0 <= k < zbuffer@.len() ==> v4(#[trigger] zbuffer@[k]) == s_transform(
                            m4(vm),
                            vert4(model.mesh.verts@[k]),
                        ),
                    forall|j: int| 0 <= j < tri_keys@.len() ==> (#[trigger] tri_keys@[j]).1
                        < model.mesh.tris@.len(),
                    forall|j: int|
                        0 <= j < tri_keys@.len() ==> #[trigger] tri_keys@[j] == s_tri_keys(
                            *model,
                            m4(vm),
                        )[j],
                decreases model.mesh.tris@.len() - ti,
            {
                let tri: Triangle = model.mesh.tris[ti];
                let z1: i128 = zbuffer[tri.v1].z;
                let z2: i128 = zbuffer[tri.v2].z;
                let z3: i128 = zbuffer[tri.v3].z;
                let key: i128 = div_fx(z1 + z2 + z3, 3);
                proof {
                    assert(key as int == s_tri_key(*model, m4(vm), ti as int));
                    assert(key == s_tri_key(*model, m4(vm), ti as int) as i128);
                }
                tri_keys.push((key, ti));
                ti += 1;
            }
            let tsorted: Vec<(i128, usize)> = sort_by_key(&tri_keys);
            proof {
                assert(tri_keys@ =~= s_tri_keys(*model, m4(vm)));
                assert(tsorted@ == s_sort(s_tri_keys(*model, m4(vm))));
                lemma_perm_elements(tri_keys@, tsorted@);
                assert forall|j: int| 0 <= j < tsorted@.len() implies (#[trigger] tsorted@[j]).1
                    < model.mesh.tris@.len() by {
                    assert(tri_keys@.contains(tsorted@[j]));
                    let k = choose|k: int| 0 <= k < tri_keys@.len() && tri_keys@[k] == tsorted@[j];
                }
            }

            let mut tj: usize = 0;
            while tj < tsorted.len()
                invariant
                    world_wf(*self),
                    object_wf(*model),
                    tj <= tsorted@.len(),
                    forall|j: int| 0 <= j < tsorted@.len() ==> (#[trigger] tsorted@[j]).1
                        < model.mesh.tris@.len(),
                    screen_verts@.len() == model.mesh.verts@.len(),
                    transformed_verts@.len() == model.mesh.verts@.len(),
                    forall|k: int|
                        0 <= k < screen_verts@.len() ==> ((#[trigger] screen_verts@[k]) is Vis
                            ==> v2_in(v2(screen_verts@[k]->p), LIM_SCR as int)),
                    forall|k: int|
                        0 <= k < screen_verts@.len() ==> ((#[trigger] screen_verts@[k]) is Vis)
                            == s_visible(s_clip_of(m4(pvm), model.mesh.verts@[k])),
                    forall|k: int|
                        0 <= k < screen_verts@.len() ==> ((#[trigger] screen_verts@[k]) is Vis
                            ==> v2(screen_verts@[k]->p) == s_screen_pt(
                            s_clip_of(m4(pvm), model.mesh.verts@[k]),
                            self.width as int,
                            self.height as int,
                        )),
                    frame@ == s_tris_upto(
                        *self,
                        *model,
                        m4(pvm),
                        tsorted@,
                        f0,
                        tj as int,
                    ),
                    f0.len() == old(frame)@.len(),
                    forall|k: int|
                        0 <= k < transformed_verts@.len() ==> v4_in(
                            v4(#[trigger] transformed_verts@[k]),
                            LIM_WORLD as int,
                        ),
                    forall|k: int|
                        0 <= k < transformed_verts@.len() ==> v4(#[trigger] transformed_verts@[k])
                            == s_transform(m4(mmat), vert4(model.mesh.verts@[k])),
                    m4(mmat) == s_model_mat(*model),
                    *model == self.models@[oi2 as int],
                    oi2 < self.models@.len(),
                    frame@.len() == old(frame)@.len(),
                    forall|i: int|
                        0 <= i < frame@.len() ==> frame@[i] == 255u8 || s_painted_byte(
                            *self,
                            i,
                            frame@[i],
                        ),
                    self.models@.len() > 0,
                decreases tsorted@.len() - tj,
            {
                let tri: Triangle = model.mesh.tris[tsorted[tj].1];
                let sv1: ScreenVert = screen_verts[tri.v1];
                let sv2: ScreenVert = screen_verts[tri.v2];
                let sv3: ScreenVert = screen_verts[tri.v3];
                match (sv1, sv2, sv3) {
                    (
                        ScreenVert::Vis { p: p1 },
                        ScreenVert::Vis { p: p2 },
                        ScreenVert::Vis { p: p3 },
                    ) => {
                        let w1: Vec4 = transformed_verts[tri.v1];
                        let w2: Vec4 = transformed_verts[tri.v2];
                        let w3: Vec4 = transformed_verts[tri.v3];
                        let a1: Vec3 = Vec3 { x: w1.x, y: w1.y, z: w1.z };
                        let a2: Vec3 = Vec3 { x: w2.x, y: w2.y, z: w2.z };
                        let a3: Vec3 = Vec3 { x: w3.x, y: w3.y, z: w3.z };
                        let e1: Vec3 = sub3(a2, a1, Ghost(LIM_WORLD as int));
                        let n1: Vec3 = normalize(e1, Ghost(2 * LIM_WORLD as int));
                        let e2: Vec3 = sub3(a3, a1, Ghost(LIM_WORLD as int));
                        let n2: Vec3 = normalize(e2, Ghost(2 * LIM_WORLD as int));
                        let norm: Vec3 = cross3(n1, n2, Ghost(FP_ONE as int));
                        let ghost ti = tsorted@[tj as int].1 as int;
                        proof {
                            assert(tri == model.mesh.tris@[ti]);
                            assert(v3(a1) == s_world_xyz(*model, tri.v1 as int));
                            assert(v3(a2) == s_world_xyz(*model, tri.v2 as int));
                            assert(v3(a3) == s_world_xyz(*model, tri.v3 as int));
                            assert(v3(norm) == s_face_normal(*model, tri));
                            assert(2 * (((FP_ONE as int) * (FP_ONE as int)) / (FP_ONE as int))
                                == 2 * FP_ONE as int) by (nonlinear_arith);
                            assert(v3_in(v3(norm), LIM_IN as int));
                        }
                        if crate::raster::is_front_facing(p1, p2, p3) {
                            let ghost fpre = frame@;
                            self.draw_triangle(p1, p2, p3, &tri.color, frame, &norm);
                            proof {
                                assert forall|i: int| 0 <= i < frame@.len() implies frame@[i]
                                    == 255u8 || s_painted_byte(*self, i, frame@[i]) by {
                                    if frame@[i] != fpre[i] {
                                        assert(frame@[i] == s_byte_of(
                                            s_shade(self.light, v3(norm), tri.color),
                                            i % 4,
                                        ));
                                        assert(tri == self.models@[oi2 as int].mesh.tris@[ti]);
                                        assert(frame@[i] == s_byte_of(
                                            s_shade(
                                                self.light,
                                                s_face_normal(
                                                    self.models@[oi2 as int],
                                                    self.models@[oi2 as int].mesh.tris@[ti],
                                                ),
                                                self.models@[oi2 as int].mesh.tris@[ti].color,
                                            ),
                                            i % 4,
                                        ));
                                        assert(s_painted_byte(*self, i, frame@[i]));
                                    }
                                }
                                assert(frame@ =~= s_paint_tri(
                                    self.light,
                                    fpre,
                                    v2(p1),
                                    v2(p2),
                                    v2(p3),
                                    self.width as int,
                                    self.height as int,
                                    v3(norm),
                                    tri.color,
                                ));
                                assert(frame@ == s_tri_step(*self, *model, m4(pvm), fpre, ti));
                            }
                        } else {
                            proof {
                                assert(frame@ == s_tri_step(*self, *model, m4(pvm), frame@, ti));
                            }
                        }
                    },
                    _ => {},
                }
                proof {
                    let tidx = tsorted@[tj as int].1 as int;
                    assert(model.mesh.tris@[tidx] == self.models@[oi2 as int].mesh.tris@[tidx]);
                    assert(frame@ == s_tris_upto(
                        *self,
                        *model,
                        m4(pvm),
                        tsorted@,
                        f0,
                        tj + 1 as int,
                    ));
                }
                tj += 1;
            }
            proof {
                assert(frame@ == s_obj_step(*self, m4(view_mat), f0, oi2 as int));
                assert(frame@ == s_objs_upto(
                    *self,
                    m4(view_mat),
                    sorted@,
                    Seq::new(old(frame)@.len(), |i: int| 255u8),
                    si + 1 as int,
                ));
            }
            si += 1;
        }
        proof {
            assert(frame@ == s_rendered(*self, m4(view_mat), old(frame)@.len()));
        }
    }
}

} // verus!
