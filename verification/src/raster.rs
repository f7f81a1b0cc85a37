//! Culling, flat shading and the scanline rasterizer.
//!
//! The backface test and the inside test both run in screen space on
//! fixed-point coordinates: a pixel at column `x`, row `y` is tested at
//! the point `(x * FP_ONE, y * FP_ONE)` against the three oriented
//! triangle edges, and is filled iff all three edge values are at least
//! zero.

use vstd::prelude::*;
use vstd::pervasive::VecAdditionalExecFns;

use crate::fx::{
    div_fx, divt, iabs, lemma_smul_bound, sclamp, smul, FP_ONE, LIM_DIM, LIM_IN, LIM_SCR,
};
use crate::math::{normalize, s_dot3, s_normalize, s_sub3, sub3, v2, v2_in, v3, v3_in, Vec2, Vec3,
    V2, V3};
use crate::mesh::Color;
use crate::scene::{light_wf, Light, World};

verus! {

/// The oriented edge function: positive when `(px, py)` lies to the
/// left of the directed edge from `a` to `b`.
pub open spec fn s_edge(ax: int, ay: int, bx: int, by: int, px: int, py: int) -> int {
    (py - ay) * (bx - ax) - (px - ax) * (by - ay)
}

/// Twice the signed screen-space area of the triangle `p1 p2 p3`.
pub open spec fn s_cross2(p1: V2, p2: V2, p3: V2) -> int {
    (p2.x - p1.x) * (p3.y - p1.y) - (p2.y - p1.y) * (p3.x - p1.x)
}

/// Evaluates the edge function at a point.
fn edge_fn(a: Vec2, b: Vec2, px: i128, py: i128) -> (r: i128)
    requires
        v2_in(v2(a), LIM_SCR as int),
        v2_in(v2(b), LIM_SCR as int),
        iabs(px as int) <= LIM_SCR as int,
        iabs(py as int) <= LIM_SCR as int,
    ensures
        r == s_edge(a.x as int, a.y as int, b.x as int, b.y as int, px as int, py as int),
{
    proof {
        assert(iabs((py - a.y) * (b.x - a.x)) <= 4 * (LIM_SCR as int) * (LIM_SCR as int) && iabs(
            (px - a.x) * (b.y - a.y),
        ) <= 4 * (LIM_SCR as int) * (LIM_SCR as int)) by (nonlinear_arith)
            requires
                iabs(py - a.y) <= 2 * LIM_SCR as int,
                iabs(b.x - a.x) <= 2 * LIM_SCR as int,
                iabs(px - a.x) <= 2 * LIM_SCR as int,
                iabs(b.y - a.y) <= 2 * LIM_SCR as int,
        ;
    }
    (py - a.y) * (b.x - a.x) - (px - a.x) * (b.y - a.y)
}

/// True iff the projected triangle faces the camera: its screen-space
/// signed area is strictly positive. Degenerate (zero-area) triangles
/// fail the test and are skipped like back faces.
pub fn is_front_facing(p1: Vec2, p2: Vec2, p3: Vec2) -> (r: bool)
    requires
        v2_in(v2(p1), LIM_SCR as int),
        v2_in(v2(p2), LIM_SCR as int),
        v2_in(v2(p3), LIM_SCR as int),
    ensures
        r == (s_cross2(v2(p1), v2(p2), v2(p3)) > 0),
{
    proof {
        assert(iabs((p2.x - p1.x) * (p3.y - p1.y)) <= 4 * (LIM_SCR as int) * (LIM_SCR as int)
            && iabs((p2.y - p1.y) * (p3.x - p1.x)) <= 4 * (LIM_SCR as int) * (LIM_SCR as int))
            by (nonlinear_arith)
            requires
                iabs(p2.x - p1.x) <= 2 * LIM_SCR as int,
                iabs(p3.y - p1.y) <= 2 * LIM_SCR as int,
                iabs(p2.y - p1.y) <= 2 * LIM_SCR as int,
                iabs(p3.x - p1.x) <= 2 * LIM_SCR as int,
        ;
    }
    let cross: i128 = (p2.x - p1.x) * (p3.y - p1.y) - (p2.y - p1.y) * (p3.x - p1.x);
    cross > 0
}

/// Winding consistency: whenever the backface test accepts a triangle
/// (strictly positive signed area), the rasterizer's inclusive inside
/// test accepts the triangle's own vertices, and its exact centroid.
/// The centroid check is stated with all coordinates tripled so that it
/// stays integral.
pub proof fn lemma_winding_consistency(t1: V2, t2: V2, t3: V2)
    requires
        s_cross2(t1, t2, t3) > 0,
    ensures
        s_edge(t2.x, t2.y, t3.x, t3.y, t1.x, t1.y) >= 0,
        s_edge(t3.x, t3.y, t1.x, t1.y, t1.x, t1.y) >= 0,
        s_edge(t1.x, t1.y, t2.x, t2.y, t1.x, t1.y) >= 0,
        s_edge(t2.x, t2.y, t3.x, t3.y, t2.x, t2.y) >= 0,
        s_edge(t3.x, t3.y, t1.x, t1.y, t2.x, t2.y) >= 0,
        s_edge(t1.x, t1.y, t2.x, t2.y, t2.x, t2.y) >= 0,
        s_edge(t2.x, t2.y, t3.x, t3.y, t3.x, t3.y) >= 0,
        s_edge(t3.x, t3.y, t1.x, t1.y, t3.x, t3.y) >= 0,
        s_edge(t1.x, t1.y, t2.x, t2.y, t3.x, t3.y) >= 0,
        s_edge(3 * t2.x, 3 * t2.y, 3 * t3.x, 3 * t3.y, t1.x + t2.x + t3.x, t1.y + t2.y + t3.y)
            >= 0,
        s_edge(3 * t3.x, 3 * t3.y, 3 * t1.x, 3 * t1.y, t1.x + t2.x + t3.x, t1.y + t2.y + t3.y)
            >= 0,
        s_edge(3 * t1.x, 3 * t1.y, 3 * t2.x, 3 * t2.y, t1.x + t2.x + t3.x, t1.y + t2.y + t3.y)
            >= 0,
{
    let x1: int = t1.x;
    let y1: int = t1.y;
    let x2: int = t2.x;
    let y2: int = t2.y;
    let x3: int = t3.x;
    let y3: int = t3.y;
    let c: int = (x2 - x1) * (y3 - y1) - (y2 - y1) * (x3 - x1);
    assert((y1 - y2) * (x3 - x2) - (x1 - x2) * (y3 - y2) == c && (y2 - y3) * (x1 - x3) - (x2 - x3)
        * (y1 - y3) == c && (y3 - y1) * (x2 - x1) - (x3 - x1) * (y2 - y1) == c)
        by (nonlinear_arith)
        requires
            c == (x2 - x1) * (y3 - y1) - (y2 - y1) * (x3 - x1),
    ;
    assert((y1 - y3) * (x1 - x3) - (x1 - x3) * (y1 - y3) == 0 && (y2 - y1) * (x2 - x1) - (x2 - x1)
        * (y2 - y1) == 0 && (y3 - y2) * (x3 - x2) - (x3 - x2) * (y3 - y2) == 0)
        by (nonlinear_arith);
    let sx: int = x1 + x2 + x3;
    let sy: int = y1 + y2 + y3;
    assert((sy - 3 * y2) * (3 * x3 - 3 * x2) - (sx - 3 * x2) * (3 * y3 - 3 * y2) == 3 * c && (sy
        - 3 * y3) * (3 * x1 - 3 * x3) - (sx - 3 * x3) * (3 * y1 - 3 * y3) == 3 * c && (sy - 3
        * y1) * (3 * x2 - 3 * x1) - (sx - 3 * x1) * (3 * y2 - 3 * y1) == 3 * c)
        by (nonlinear_arith)
        requires
            sx == x1 + x2 + x3,
            sy == y1 + y2 + y3,
            c == (x2 - x1) * (y3 - y1) - (y2 - y1) * (x3 - x1),
    ;
    assert(s_cross2(t1, t2, t3) == c);
}

/// Backface culling idempotence: swapping the last two vertices negates
/// the signed area, so for any triangle exactly one of the two vertex
/// orders is front-facing — unless the area is zero, when neither is.
pub proof fn lemma_backface_flip(t1: V2, t2: V2, t3: V2)
    ensures
        s_cross2(t1, t3, t2) == -s_cross2(t1, t2, t3),
        s_cross2(t1, t2, t3) != 0 ==> ((s_cross2(t1, t2, t3) > 0) != (s_cross2(t1, t3, t2) > 0)),
        s_cross2(t1, t2, t3) == 0 ==> !(s_cross2(t1, t2, t3) > 0) && !(s_cross2(t1, t3, t2) > 0),
{
    let x1: int = t1.x;
    let y1: int = t1.y;
    let x2: int = t2.x;
    let y2: int = t2.y;
    let x3: int = t3.x;
    let y3: int = t3.y;
    assert((x3 - x1) * (y2 - y1) - (y3 - y1) * (x2 - x1) == -((x2 - x1) * (y3 - y1) - (y2 - y1) * (
    x3 - x1))) by (nonlinear_arith);
}

/// The normalized light direction, from the light's position toward its
/// target.
pub open spec fn s_light_dir(l: Light) -> V3 {
    s_normalize(s_sub3(v3(l.target), v3(l.position)))
}

/// The flat coloring factor: ambient plus diffuse, where diffuse is the
/// light-direction/face-normal dot product scaled by the intensity and
/// clamped into [0, 1]. The specular term is fixed at zero.
pub open spec fn s_coloring(l: Light, norm: V3) -> int {
    l.ambient + sclamp(smul(s_dot3(s_light_dir(l), norm), l.intensity as int), 0, FP_ONE as int)
}

/// One color channel scaled by the coloring factor, truncated, and
/// saturated into a byte.
pub open spec fn s_channel(c: int, f: int) -> int {
    sclamp(divt(c * f, FP_ONE as int), 0, 255)
}

/// The flat-shaded color of a triangle: each of R, G, B scaled by the
/// coloring factor; alpha passed through unmodified.
pub open spec fn s_shade(l: Light, norm: V3, c: Color) -> Color {
    Color {
        r: s_channel(c.r as int, s_coloring(l, norm)) as u8,
        g: s_channel(c.g as int, s_coloring(l, norm)) as u8,
        b: s_channel(c.b as int, s_coloring(l, norm)) as u8,
        a: c.a,
    }
}

/// Shading determinism: the shaded color is a function of the light,
/// the face normal and the base color alone.
pub proof fn lemma_shading_deterministic(l1: Light, l2: Light, n1: V3, n2: V3, c1: Color, c2: Color)
    requires
        l1 == l2,
        n1 == n2,
        c1 == c2,
    ensures
        s_shade(l1, n1, c1) == s_shade(l2, n2, c2),
{
}

/// Computes the flat-shaded color of a triangle.
pub fn shade_color(light: &Light, norm: Vec3, color: Color) -> (r: Color)
    requires
        light_wf(*light),
        v3_in(v3(norm), LIM_IN as int),
    ensures
        r == s_shade(*light, v3(norm), color),
{
    let ld0: Vec3 = sub3(light.target, light.position, Ghost(LIM_IN as int));
    let light_dir: Vec3 = normalize(ld0, Ghost(2 * LIM_IN as int));
    let d: i128 = crate::math::dot3(light_dir, norm, Ghost(FP_ONE as int), Ghost(LIM_IN as int));
    proof {
        lemma_smul_bound(d as int, light.intensity as int, 30_000_000_000, LIM_IN as int);
    }
    let di: i128 = crate::fx::mul_fx(d, light.intensity);
    let diffuse: i128 = crate::fx::clamp_fx(di, 0, FP_ONE);
    let coloring: i128 = light.ambient + diffuse;
    proof {
        lemma_smul_bound(color.r as int, coloring as int, 255, LIM_IN as int + FP_ONE as int);
        lemma_smul_bound(color.g as int, coloring as int, 255, LIM_IN as int + FP_ONE as int);
        lemma_smul_bound(color.b as int, coloring as int, 255, LIM_IN as int + FP_ONE as int);
    }
    let cr: i128 = crate::fx::clamp_fx(div_fx(color.r as i128 * coloring, FP_ONE), 0, 255);
    let cg: i128 = crate::fx::clamp_fx(div_fx(color.g as i128 * coloring, FP_ONE), 0, 255);
    let cb: i128 = crate::fx::clamp_fx(div_fx(color.b as i128 * coloring, FP_ONE), 0, 255);
    Color { r: cr as u8, g: cg as u8, b: cb as u8, a: color.a }
}

/// Overwrites every byte of the buffer with 255: an opaque white frame.
pub fn clear_frame(frame: &mut Vec<u8>)
    ensures
        final(frame)@.len() == old(frame)@.len(),
        forall|i: int| 0 <= i < final(frame)@.len() ==> final(frame)@[i] == 255u8,
{
    let mut i: usize = 0;
    while i < frame.len()
        invariant
            i <= frame@.len(),
            frame@.len() == old(frame)@.len(),
            forall|j: int| 0 <= j < i ==> frame@[j] == 255u8,
        decreases frame@.len() - i,
    {
        frame.set(i, 255);
        i += 1;
    }
}

/// Smallest of three scalars.
pub open spec fn s_min3(a: int, b: int, c: int) -> int {
    vstd::math::min(vstd::math::min(a, b), c)
}

/// Largest of three scalars.
pub open spec fn s_max3(a: int, b: int, c: int) -> int {
    vstd::math::max(vstd::math::max(a, b), c)
}

/// Left column of a triangle's pixel bounding box: the smallest vertex
/// x, clamped below at zero, truncated to a pixel index.
pub open spec fn s_bb_min_x(t1: V2, t2: V2, t3: V2) -> int {
    divt(vstd::math::max(s_min3(t1.x, t2.x, t3.x), 0), FP_ONE as int)
}

/// Right column of the box: the largest vertex x, clamped above at the
/// last column, plus one pixel, truncated.
pub open spec fn s_bb_max_x(t1: V2, t2: V2, t3: V2, w: int) -> int {
    divt(
        vstd::math::min(s_max3(t1.x, t2.x, t3.x), (w - 1) * (FP_ONE as int)) + FP_ONE as int,
        FP_ONE as int,
    )
}

/// Top row of the box.
pub open spec fn s_bb_min_y(t1: V2, t2: V2, t3: V2) -> int {
    divt(vstd::math::max(s_min3(t1.y, t2.y, t3.y), 0), FP_ONE as int)
}

/// Bottom row of the box.
pub open spec fn s_bb_max_y(t1: V2, t2: V2, t3: V2, h: int) -> int {
    divt(
        vstd::math::min(s_max3(t1.y, t2.y, t3.y), (h - 1) * (FP_ONE as int)) + FP_ONE as int,
        FP_ONE as int,
    )
}

/// The inclusive inside test at the center of pixel `(x, y)`: all three
/// oriented edge values are at least zero there.
pub open spec fn pix_hit(t1: V2, t2: V2, t3: V2, x: int, y: int) -> bool {
    &&& s_edge(t2.x, t2.y, t3.x, t3.y, x * (FP_ONE as int), y * (FP_ONE as int)) >= 0
    &&& s_edge(t3.x, t3.y, t1.x, t1.y, x * (FP_ONE as int), y * (FP_ONE as int)) >= 0
    &&& s_edge(t1.x, t1.y, t2.x, t2.y, x * (FP_ONE as int), y * (FP_ONE as int)) >= 0
}

/// Pixel `(x, y)` lies inside the image, lies in the triangle's clamped
/// bounding box, passes the inside test, and its 4-byte slot (which
/// holds byte `i`) fits in a buffer of length `len`.
pub open spec fn covers_pair(
    t1: V2,
    t2: V2,
    t3: V2,
    w: int,
    h: int,
    len: int,
    x: int,
    y: int,
    i: int,
) -> bool {
    &&& 0 <= x < w
    &&& 0 <= y < h
    &&& s_bb_min_x(t1, t2, t3) <= x <= s_bb_max_x(t1, t2, t3, w)
    &&& s_bb_min_y(t1, t2, t3) <= y <= s_bb_max_y(t1, t2, t3, h)
    &&& pix_hit(t1, t2, t3, x, y)
    &&& (y * w + x) * 4 <= i < (y * w + x) * 4 + 4
    &&& (y * w + x) * 4 + 4 <= len
}

/// Byte `i` of the buffer belongs to some pixel the triangle paints.
pub open spec fn covered(t1: V2, t2: V2, t3: V2, w: int, h: int, len: int, i: int) -> bool {
    exists|x: int, y: int| #[trigger] covers_pair(t1, t2, t3, w, h, len, x, y, i)
}

/// Pixel `(y, x)` comes before the scan position `(yl, xl)` in row-major
/// order.
pub open spec fn pair_lt(y: int, x: int, yl: int, xl: int) -> bool {
    y < yl || (y == yl && x < xl)
}

/// Byte `i` belongs to some painted pixel that the scan has already
/// passed.
pub open spec fn covered_upto(
    t1: V2,
    t2: V2,
    t3: V2,
    w: int,
    h: int,
    len: int,
    yl: int,
    xl: int,
    i: int,
) -> bool {
    exists|x: int, y: int|
        pair_lt(y, x, yl, xl) && #[trigger] covers_pair(t1, t2, t3, w, h, len, x, y, i)
}

/// Byte `i` of a pixel's 4-byte slot: R, G, B then A.
pub open spec fn s_byte_of(c: Color, k: int) -> u8 {
    if k == 0 {
        c.r
    } else if k == 1 {
        c.g
    } else if k == 2 {
        c.b
    } else {
        c.a
    }
}

/// Before the scan starts nothing has been passed.
proof fn lemma_upto_empty(t1: V2, t2: V2, t3: V2, w: int, h: int, len: int, i: int)
    ensures
        !covered_upto(t1, t2, t3, w, h, len, s_bb_min_y(t1, t2, t3), s_bb_min_x(t1, t2, t3), i),
{
    if covered_upto(t1, t2, t3, w, h, len, s_bb_min_y(t1, t2, t3), s_bb_min_x(t1, t2, t3), i) {
        let (x, y) = choose|x: int, y: int|
            pair_lt(y, x, s_bb_min_y(t1, t2, t3), s_bb_min_x(t1, t2, t3)) && #[trigger] covers_pair(
                t1,
                t2,
                t3,
                w,
                h,
                len,
                x,
                y,
                i,
            );
        assert(false);
    }
}

/// Passing a pixel that paints nothing onto byte `i` leaves the
/// already-passed set for `i` unchanged.
proof fn lemma_upto_skip(t1: V2, t2: V2, t3: V2, w: int, h: int, len: int, y: int, x: int, i: int)
    requires
        !covers_pair(t1, t2, t3, w, h, len, x, y, i),
    ensures
        covered_upto(t1, t2, t3, w, h, len, y, x + 1, i) == covered_upto(
            t1,
            t2,
            t3,
            w,
            h,
            len,
            y,
            x,
            i,
        ),
{
    if covered_upto(t1, t2, t3, w, h, len, y, x + 1, i) {
        let (wx, wy) = choose|wx: int, wy: int|
            pair_lt(wy, wx, y, x + 1) && #[trigger] covers_pair(t1, t2, t3, w, h, len, wx, wy, i);
        assert(!(wy == y && wx == x));
        assert(pair_lt(wy, wx, y, x));
        assert(covered_upto(t1, t2, t3, w, h, len, y, x, i));
    }
    if covered_upto(t1, t2, t3, w, h, len, y, x, i) {
        let (wx, wy) = choose|wx: int, wy: int|
            pair_lt(wy, wx, y, x) && #[trigger] covers_pair(t1, t2, t3, w, h, len, wx, wy, i);
        assert(pair_lt(wy, wx, y, x + 1));
        assert(covered_upto(t1, t2, t3, w, h, len, y, x + 1, i));
    }
}

/// Finishing a row advances the scan position to the start of the next
/// row without changing the already-passed set.
proof fn lemma_upto_row(t1: V2, t2: V2, t3: V2, w: int, h: int, len: int, y: int, xf: int, i: int)
    requires
        xf > s_bb_max_x(t1, t2, t3, w) || xf >= s_bb_min_x(t1, t2, t3),
        forall|wx: int| #[trigger] covers_pair(t1, t2, t3, w, h, len, wx, y, i) ==> wx < xf,
    ensures
        covered_upto(t1, t2, t3, w, h, len, y + 1, s_bb_min_x(t1, t2, t3), i) == covered_upto(
            t1,
            t2,
            t3,
            w,
            h,
            len,
            y,
            xf,
            i,
        ),
{
    if covered_upto(t1, t2, t3, w, h, len, y + 1, s_bb_min_x(t1, t2, t3), i) {
        let (wx, wy) = choose|wx: int, wy: int|
            pair_lt(wy, wx, y + 1, s_bb_min_x(t1, t2, t3)) && #[trigger] covers_pair(
                t1,
                t2,
                t3,
                w,
                h,
                len,
                wx,
                wy,
                i,
            );
        assert(wy <= y);
        if wy == y {
            assert(wx < xf);
        }
        assert(pair_lt(wy, wx, y, xf));
        assert(covered_upto(t1, t2, t3, w, h, len, y, xf, i));
    }
    if covered_upto(t1, t2, t3, w, h, len, y, xf, i) {
        let (wx, wy) = choose|wx: int, wy: int|
            pair_lt(wy, wx, y, xf) && #[trigger] covers_pair(t1, t2, t3, w, h, len, wx, wy, i);
        assert(pair_lt(wy, wx, y + 1, s_bb_min_x(t1, t2, t3)));
        assert(covered_upto(t1, t2, t3, w, h, len, y + 1, s_bb_min_x(t1, t2, t3), i));
    }
}

/// Once the scan has passed the last row, the already-passed set is
/// everything the triangle paints.
proof fn lemma_upto_full(t1: V2, t2: V2, t3: V2, w: int, h: int, len: int, yf: int, i: int)
    requires
        yf > s_bb_max_y(t1, t2, t3, h) || yf >= h,
    ensures
        covered_upto(t1, t2, t3, w, h, len, yf, s_bb_min_x(t1, t2, t3), i) == covered(
            t1,
            t2,
            t3,
            w,
            h,
            len,
            i,
        ),
{
    if covered_upto(t1, t2, t3, w, h, len, yf, s_bb_min_x(t1, t2, t3), i) {
        let (wx, wy) = choose|wx: int, wy: int|
            pair_lt(wy, wx, yf, s_bb_min_x(t1, t2, t3)) && #[trigger] covers_pair(
                t1,
                t2,
                t3,
                w,
                h,
                len,
                wx,
                wy,
                i,
            );
        assert(covered(t1, t2, t3, w, h, len, i));
    }
    if covered(t1, t2, t3, w, h, len, i) {
        let (wx, wy) = choose|wx: int, wy: int| #[trigger] covers_pair(
            t1,
            t2,
            t3,
            w,
            h,
            len,
            wx,
            wy,
            i,
        );
        assert(pair_lt(wy, wx, yf, s_bb_min_x(t1, t2, t3)));
        assert(covered_upto(t1, t2, t3, w, h, len, yf, s_bb_min_x(t1, t2, t3), i));
    }
}

impl World {
    /// Shades one already-culled triangle and fills its pixels.
    ///
    /// Every byte of a painted pixel slot receives the shaded color;
    /// every other byte of the buffer is left exactly as it was. The
    /// fill never writes a pixel outside the image, however far the
    /// triangle's bounding box reaches, and a slot whose byte range does
    /// not fit inside the buffer is skipped.
    pub fn draw_triangle(
        &self,
        t1: Vec2,
        t2: Vec2,
        t3: Vec2,
        color: &Color,
        frame: &mut Vec<u8>,
        norm: &Vec3,
    )
        requires
            light_wf(self.light),
            self.width <= LIM_DIM,
            self.height <= LIM_DIM,
            v2_in(v2(t1), LIM_SCR as int),
            v2_in(v2(t2), LIM_SCR as int),
            v2_in(v2(t3), LIM_SCR as int),
            v3_in(v3(*norm), LIM_IN as int),
        ensures
            final(frame)@.len() == old(frame)@.len(),
            forall|i: int|
                0 <= i < final(frame)@.len() ==> final(frame)@[i] == (if covered(
                    v2(t1),
                    v2(t2),
                    v2(t3),
                    self.width as int,
                    self.height as int,
                    old(frame)@.len() as int,
                    i,
                ) {
                    s_byte_of(s_shade(self.light, v3(*norm), *color), i % 4)
                } else {
                    old(frame)@[i]
                }),
    {
        let ghost g1 = v2(t1);
        let ghost g2 = v2(t2);
        let ghost g3 = v2(t3);
        let ghost gw = self.width as int;
        let ghost gh = self.height as int;
        let ghost glen = old(frame)@.len() as int;
        let ghost shaded = s_shade(self.light, v3(*norm), *color);

        let p_color: Color = shade_color(&self.light, *norm, *color);

        let min_x: i128 = div_fx(
            crate::fx::max_fx(crate::fx::min_fx(crate::fx::min_fx(t1.x, t2.x), t3.x), 0),
            FP_ONE,
        );
        let max_x: i128 = div_fx(
            crate::fx::min_fx(
                crate::fx::max_fx(crate::fx::max_fx(t1.x, t2.x), t3.x),
                (self.width as i128 - 1) * FP_ONE,
            ) + FP_ONE,
            FP_ONE,
        );
        let min_y: i128 = div_fx(
            crate::fx::max_fx(crate::fx::min_fx(crate::fx::min_fx(t1.y, t2.y), t3.y), 0),
            FP_ONE,
        );
        let max_y: i128 = div_fx(
            crate::fx::min_fx(
                crate::fx::max_fx(crate::fx::max_fx(t1.y, t2.y), t3.y),
                (self.height as i128 - 1) * FP_ONE,
            ) + FP_ONE,
            FP_ONE,
        );
        proof {
            assert(min_x == s_bb_min_x(g1, g2, g3));
            assert(max_x == s_bb_max_x(g1, g2, g3, gw));
            assert(min_y == s_bb_min_y(g1, g2, g3));
            assert(max_y == s_bb_max_y(g1, g2, g3, gh));
            assert(0 <= min_x && 0 <= min_y);
            assert(max_x <= self.width as int && max_y <= self.height as int) by {
                vstd::arithmetic::div_mod::lemma_div_is_ordered(
                    vstd::math::min(
                        s_max3(g1.x, g2.x, g3.x),
                        (gw - 1) * (FP_ONE as int),
                    ) + FP_ONE as int,
                    gw * (FP_ONE as int),
                    FP_ONE as int,
                );
                vstd::arithmetic::div_mod::lemma_div_is_ordered(
                    vstd::math::min(
                        s_max3(g1.y, g2.y, g3.y),
                        (gh - 1) * (FP_ONE as int),
                    ) + FP_ONE as int,
                    gh * (FP_ONE as int),
                    FP_ONE as int,
                );
                vstd::arithmetic::div_mod::lemma_div_by_multiple(gw, FP_ONE as int);
                vstd::arithmetic::div_mod::lemma_div_by_multiple(gh, FP_ONE as int);
            }
            assert forall|i: int| 0 <= i < glen implies frame@[i] == (if covered_upto(
                g1,
                g2,
                g3,
                gw,
                gh,
                glen,
                min_y as int,
                min_x as int,
                i,
            ) {
                s_byte_of(shaded, i % 4)
            } else {
                old(frame)@[i]
            }) by {
                lemma_upto_empty(g1, g2, g3, gw, gh, glen, i);
            }
        }
        // The fill never leaves the image: columns stop at width - 1 and
        // rows at height - 1, whatever the box's outer edge computed to.
        let xm: i128 = crate::fx::min_fx(max_x, self.width as i128 - 1);
        let ym: i128 = crate::fx::min_fx(max_y, self.height as i128 - 1);
        let mut y: i128 = min_y;
        while y <= ym
            invariant
                light_wf(self.light),
                self.width <= LIM_DIM,
                self.height <= LIM_DIM,
                gw == self.width as int,
                gh == self.height as int,
                glen == old(frame)@.len() as int,
                frame@.len() == old(frame)@.len(),
                p_color == shaded,
                v2_in(g1, LIM_SCR as int),
                v2_in(g2, LIM_SCR as int),
                v2_in(g3, LIM_SCR as int),
                g1 == v2(t1) && g2 == v2(t2) && g3 == v2(t3),
                min_x == s_bb_min_x(g1, g2, g3),
                max_x == s_bb_max_x(g1, g2, g3, gw),
                min_y == s_bb_min_y(g1, g2, g3),
                max_y == s_bb_max_y(g1, g2, g3, gh),
                xm as int == vstd::math::min(max_x as int, gw - 1),
                ym as int == vstd::math::min(max_y as int, gh - 1),
                0 <= min_x,
                min_y <= y,
                max_x <= gw,
                max_y <= gh,
                forall|i: int|
                    0 <= i < glen ==> frame@[i] == (if covered_upto(
                        g1,
                        g2,
                        g3,
                        gw,
                        gh,
                        glen,
                        y as int,
                        min_x as int,
                        i,
                    ) {
                        s_byte_of(shaded, i % 4)
                    } else {
                        old(frame)@[i]
                    }),
            decreases ym + 1 - y,
        {
            let mut x: i128 = min_x;
            while x <= xm
                invariant
                    light_wf(self.light),
                    self.width <= LIM_DIM,
                    self.height <= LIM_DIM,
                    gw == self.width as int,
                    gh == self.height as int,
                    glen == old(frame)@.len() as int,
                    frame@.len() == old(frame)@.len(),
                    p_color == shaded,
                    v2_in(g1, LIM_SCR as int),
                    v2_in(g2, LIM_SCR as int),
                    v2_in(g3, LIM_SCR as int),
                    g1 == v2(t1) && g2 == v2(t2) && g3 == v2(t3),
                    min_x == s_bb_min_x(g1, g2, g3),
                    max_x == s_bb_max_x(g1, g2, g3, gw),
                    min_y == s_bb_min_y(g1, g2, g3),
                    max_y == s_bb_max_y(g1, g2, g3, gh),
                    xm as int == vstd::math::min(max_x as int, gw - 1),
                    ym as int == vstd::math::min(max_y as int, gh - 1),
                    0 <= min_x <= x,
                    min_y <= y <= ym,
                    max_x <= gw,
                    max_y <= gh,
                    forall|i: int|
                        0 <= i < glen ==> frame@[i] == (if covered_upto(
                            g1,
                            g2,
                            g3,
                            gw,
                            gh,
                            glen,
                            y as int,
                            x as int,
                            i,
                        ) {
                            s_byte_of(shaded, i % 4)
                        } else {
                            old(frame)@[i]
                        }),
                decreases xm + 1 - x,
            {
                let px: i128 = x * FP_ONE;
                let py: i128 = y * FP_ONE;
                let w0: i128 = edge_fn(t2, t3, px, py);
                let w1: i128 = edge_fn(t3, t1, px, py);
                let w2: i128 = edge_fn(t1, t2, px, py);
                if w0 >= 0 && w1 >= 0 && w2 >= 0 {
                    proof {
                        assert(0 <= y * gw + x <= 10_000_100_000) by (nonlinear_arith)
                            requires
                                0 <= x <= gw,
                                0 <= y <= gh,
                                0 <= gw <= 100_000,
                                0 <= gh <= 100_000,
                        ;
                    }
                    let idx128: i128 = (y * (self.width as i128) + x) * 4;
                    if idx128 + 4 <= frame.len() as i128 {
                        let idx: usize = idx128 as usize;
                        let ghost pre = frame@;
                        frame.set(idx, p_color.r);
                        frame.set(idx + 1, p_color.g);
                        frame.set(idx + 2, p_color.b);
                        frame.set(idx + 3, p_color.a);
                        proof {
                            vstd::arithmetic::div_mod::lemma_fundamental_div_mod_converse(
                                idx as int,
                                4,
                                (y * gw + x) as int,
                                0,
                            );
                            vstd::arithmetic::div_mod::lemma_fundamental_div_mod_converse(
                                idx as int + 1,
                                4,
                                (y * gw + x) as int,
                                1,
                            );
                            vstd::arithmetic::div_mod::lemma_fundamental_div_mod_converse(
                                idx as int + 2,
                                4,
                                (y * gw + x) as int,
                                2,
                            );
                            vstd::arithmetic::div_mod::lemma_fundamental_div_mod_converse(
                                idx as int + 3,
                                4,
                                (y * gw + x) as int,
                                3,
                            );
                            assert(covers_pair(g1, g2, g3, gw, gh, glen, x as int, y as int,
                                idx as int));
                            assert forall|i: int| 0 <= i < glen implies frame@[i] == (if
                            covered_upto(g1, g2, g3, gw, gh, glen, y as int, x + 1 as int, i) {
                                s_byte_of(shaded, i % 4)
                            } else {
                                old(frame)@[i]
                            }) by {
                                if idx as int <= i < idx as int + 4 {
                                    assert(covers_pair(g1, g2, g3, gw, gh, glen, x as int,
                                        y as int, i));
                                    assert(pair_lt(y as int, x as int, y as int, x + 1 as int));
                                    assert(covered_upto(g1, g2, g3, gw, gh, glen, y as int, x + 1
                                        as int, i));
                                } else {
                                    assert(frame@[i] == pre[i]);
                                    assert(!covers_pair(g1, g2, g3, gw, gh, glen, x as int,
                                        y as int, i));
                                    lemma_upto_skip(g1, g2, g3, gw, gh, glen, y as int, x as int,
                                        i);
                                }
                            }
                        }
                    } else {
                        proof {
                            assert forall|i: int| 0 <= i < glen implies frame@[i] == (if
                            covered_upto(g1, g2, g3, gw, gh, glen, y as int, x + 1 as int, i) {
                                s_byte_of(shaded, i % 4)
                            } else {
                                old(frame)@[i]
                            }) by {
                                assert(!covers_pair(g1, g2, g3, gw, gh, glen, x as int, y as int,
                                    i));
                                lemma_upto_skip(g1, g2, g3, gw, gh, glen, y as int, x as int, i);
                            }
                        }
                    }
                } else {
                    proof {
                        assert forall|i: int| 0 <= i < glen implies frame@[i] == (if covered_upto(
                            g1,
                            g2,
                            g3,
                            gw,
                            gh,
                            glen,
                            y as int,
                            x + 1 as int,
                            i,
                        ) {
                            s_byte_of(shaded, i % 4)
                        } else {
                            old(frame)@[i]
                        }) by {
                            assert(!pix_hit(g1, g2, g3, x as int, y as int));
                            assert(!covers_pair(g1, g2, g3, gw, gh, glen, x as int, y as int, i));
                            lemma_upto_skip(g1, g2, g3, gw, gh, glen, y as int, x as int, i);
                        }
                    }
                }
                x += 1;
            }
            proof {
                assert forall|i: int| 0 <= i < glen implies frame@[i] == (if covered_upto(
                    g1,
                    g2,
                    g3,
                    gw,
                    gh,
                    glen,
                    y + 1 as int,
                    min_x as int,
                    i,
                ) {
                    s_byte_of(shaded, i % 4)
                } else {
                    old(frame)@[i]
                }) by {
                    lemma_upto_row(g1, g2, g3, gw, gh, glen, y as int, x as int, i);
                }
            }
            y += 1;
        }
        proof {
            assert forall|i: int| 0 <= i < glen implies frame@[i] == (if covered(
                g1,
                g2,
                g3,
                gw,
                gh,
                glen,
                i,
            ) {
                s_byte_of(shaded, i % 4)
            } else {
                old(frame)@[i]
            }) by {
                lemma_upto_full(g1, g2, g3, gw, gh, glen, y as int, i);
            }
        }
    }
}

} // verus!
