//! Fixed-point vectors and 4x4 matrices.
//!
//! Exec values hold `i128` fixed-point scalars; every operation has a
//! spec twin over the ghost mirror types [`V3`], [`V4`], [`M4`] whose
//! fields are unbounded integers. Matrices are row-major with the
//! translation in the fourth column, so a point transforms as
//! `row . (x, y, z, FP_ONE)`.

use vstd::prelude::*;

use crate::fx::{
    div_fx, divt, iabs, is_sqrt, isqrt, lemma_divt_bound, lemma_smul_bound, lemma_sqrt_unique,
    mul_fx, smul, sqrtn, FP_ONE, LIM_IN, PROD_LIM,
};

verus! {

/// Bound accepted by [`normalize`] for its operand components.
pub const LIM_NORM_IN: i128 = 100_000_000_000_000_000;

/// A 2D screen-space point.
#[derive(Clone, Copy, PartialEq, Eq, Structural, Debug)]
pub struct Vec2 {
    pub x: i128,
    pub y: i128,
}

/// A 3D vector or point.
#[derive(Clone, Copy, PartialEq, Eq, Structural, Debug)]
pub struct Vec3 {
    pub x: i128,
    pub y: i128,
    pub z: i128,
}

/// A homogeneous 4-vector.
#[derive(Clone, Copy, PartialEq, Eq, Structural, Debug)]
pub struct Vec4 {
    pub x: i128,
    pub y: i128,
    pub z: i128,
    pub w: i128,
}

/// A row-major 4x4 matrix.
#[derive(Clone, Copy, PartialEq, Eq, Structural, Debug)]
pub struct Mat4 {
    pub r0: Vec4,
    pub r1: Vec4,
    pub r2: Vec4,
    pub r3: Vec4,
}

/// Ghost mirror of [`Vec2`] over unbounded integers.
pub ghost struct V2 {
    pub x: int,
    pub y: int,
}

/// Ghost mirror of [`Vec3`] over unbounded integers.
pub ghost struct V3 {
    pub x: int,
    pub y: int,
    pub z: int,
}

/// Ghost mirror of [`Vec4`] over unbounded integers.
pub ghost struct V4 {
    pub x: int,
    pub y: int,
    pub z: int,
    pub w: int,
}

/// Ghost mirror of [`Mat4`] over unbounded integers.
pub ghost struct M4 {
    pub r0: V4,
    pub r1: V4,
    pub r2: V4,
    pub r3: V4,
}

/// The mathematical value of a screen point.
pub open spec fn v2(p: Vec2) -> V2 {
    V2 { x: p.x as int, y: p.y as int }
}

/// The mathematical value of a vector.
pub open spec fn v3(p: Vec3) -> V3 {
    V3 { x: p.x as int, y: p.y as int, z: p.z as int }
}

/// The mathematical value of a homogeneous vector.
pub open spec fn v4(p: Vec4) -> V4 {
    V4 { x: p.x as int, y: p.y as int, z: p.z as int, w: p.w as int }
}

/// The mathematical value of a matrix.
pub open spec fn m4(m: Mat4) -> M4 {
    M4 { r0: v4(m.r0), r1: v4(m.r1), r2: v4(m.r2), r3: v4(m.r3) }
}

/// Every component of `p` has magnitude at most `m`.
pub open spec fn v2_in(p: V2, m: int) -> bool {
    iabs(p.x) <= m && iabs(p.y) <= m
}

/// Every component of `p` has magnitude at most `m`.
pub open spec fn v3_in(p: V3, m: int) -> bool {
    iabs(p.x) <= m && iabs(p.y) <= m && iabs(p.z) <= m
}

/// Every component of `p` has magnitude at most `m`.
pub open spec fn v4_in(p: V4, m: int) -> bool {
    iabs(p.x) <= m && iabs(p.y) <= m && iabs(p.z) <= m && iabs(p.w) <= m
}

/// Every entry of `m` has magnitude at most `b`.
pub open spec fn m4_in(m: M4, b: int) -> bool {
    v4_in(m.r0, b) && v4_in(m.r1, b) && v4_in(m.r2, b) && v4_in(m.r3, b)
}

/// Componentwise difference.
pub open spec fn s_sub3(a: V3, b: V3) -> V3 {
    V3 { x: a.x - b.x, y: a.y - b.y, z: a.z - b.z }
}

/// Fixed-point dot product of 3-vectors.
pub open spec fn s_dot3(a: V3, b: V3) -> int {
    smul(a.x, b.x) + smul(a.y, b.y) + smul(a.z, b.z)
}

/// Fixed-point dot product of 4-vectors.
pub open spec fn s_dot4(a: V4, b: V4) -> int {
    smul(a.x, b.x) + smul(a.y, b.y) + smul(a.z, b.z) + smul(a.w, b.w)
}

/// Fixed-point cross product.
pub open spec fn s_cross3(a: V3, b: V3) -> V3 {
    V3 {
        x: smul(a.y, b.z) - smul(a.z, b.y),
        y: smul(a.z, b.x) - smul(a.x, b.z),
        z: smul(a.x, b.y) - smul(a.y, b.x),
    }
}

/// Squared length of `a`, at the square of the fixed-point scale.
pub open spec fn s_len2(a: V3) -> int {
    a.x * a.x + a.y * a.y + a.z * a.z
}

/// `a` scaled to unit length; the zero vector stays zero.
pub open spec fn s_normalize(a: V3) -> V3 {
    let l = sqrtn(s_len2(a));
    if l == 0 {
        V3 { x: 0, y: 0, z: 0 }
    } else {
        V3 {
            x: divt(a.x * (FP_ONE as int), l),
            y: divt(a.y * (FP_ONE as int), l),
            z: divt(a.z * (FP_ONE as int), l),
        }
    }
}

/// The reflection of `incident` about the plane with normal `normal`.
pub open spec fn s_reflect(incident: V3, normal: V3) -> V3 {
    let d = s_dot3(incident, normal);
    V3 {
        x: incident.x - 2 * smul(normal.x, d),
        y: incident.y - 2 * smul(normal.y, d),
        z: incident.z - 2 * smul(normal.z, d),
    }
}

/// Column `j` of `b` as a 4-vector.
pub open spec fn s_col0(b: M4) -> V4 {
    V4 { x: b.r0.x, y: b.r1.x, z: b.r2.x, w: b.r3.x }
}

/// Column 1 of `b` as a 4-vector.
pub open spec fn s_col1(b: M4) -> V4 {
    V4 { x: b.r0.y, y: b.r1.y, z: b.r2.y, w: b.r3.y }
}

/// Column 2 of `b` as a 4-vector.
pub open spec fn s_col2(b: M4) -> V4 {
    V4 { x: b.r0.z, y: b.r1.z, z: b.r2.z, w: b.r3.z }
}

/// Column 3 of `b` as a 4-vector.
pub open spec fn s_col3(b: M4) -> V4 {
    V4 { x: b.r0.w, y: b.r1.w, z: b.r2.w, w: b.r3.w }
}

/// Row-by-column fixed-point matrix product.
pub open spec fn s_mat_mul(a: M4, b: M4) -> M4 {
    M4 {
        r0: V4 {
            x: s_dot4(a.r0, s_col0(b)),
            y: s_dot4(a.r0, s_col1(b)),
            z: s_dot4(a.r0, s_col2(b)),
            w: s_dot4(a.r0, s_col3(b)),
        },
        r1: V4 {
            x: s_dot4(a.r1, s_col0(b)),
            y: s_dot4(a.r1, s_col1(b)),
            z: s_dot4(a.r1, s_col2(b)),
            w: s_dot4(a.r1, s_col3(b)),
        },
        r2: V4 {
            x: s_dot4(a.r2, s_col0(b)),
            y: s_dot4(a.r2, s_col1(b)),
            z: s_dot4(a.r2, s_col2(b)),
            w: s_dot4(a.r2, s_col3(b)),
        },
        r3: V4 {
            x: s_dot4(a.r3, s_col0(b)),
            y: s_dot4(a.r3, s_col1(b)),
            z: s_dot4(a.r3, s_col2(b)),
            w: s_dot4(a.r3, s_col3(b)),
        },
    }
}

/// `m` applied to the homogeneous vector `v`.
pub open spec fn s_transform(m: M4, v: V4) -> V4 {
    V4 { x: s_dot4(m.r0, v), y: s_dot4(m.r1, v), z: s_dot4(m.r2, v), w: s_dot4(m.r3, v) }
}

/// The translation-only model matrix for an object offset.
pub open spec fn s_translation(ox: int, oy: int, oz: int) -> M4 {
    M4 {
        r0: V4 { x: FP_ONE as int, y: 0, z: 0, w: ox },
        r1: V4 { x: 0, y: FP_ONE as int, z: 0, w: oy },
        r2: V4 { x: 0, y: 0, z: FP_ONE as int, w: oz },
        r3: V4 { x: 0, y: 0, z: 0, w: FP_ONE as int },
    }
}

/// The right-handed look-at view matrix for a camera pose.
pub open spec fn s_look_at(eye: V3, target: V3, up: V3) -> M4 {
    let f = s_normalize(s_sub3(target, eye));
    let s = s_normalize(s_cross3(f, up));
    let u = s_cross3(s, f);
    M4 {
        r0: V4 { x: s.x, y: s.y, z: s.z, w: -s_dot3(s, eye) },
        r1: V4 { x: u.x, y: u.y, z: u.z, w: -s_dot3(u, eye) },
        r2: V4 { x: -f.x, y: -f.y, z: -f.z, w: s_dot3(f, eye) },
        r3: V4 { x: 0, y: 0, z: 0, w: FP_ONE as int },
    }
}

/// Componentwise difference of two vectors.
pub fn sub3(a: Vec3, b: Vec3, Ghost(m): Ghost<int>) -> (r: Vec3)
    requires
        0 <= m <= PROD_LIM,
        v3_in(v3(a), m),
        v3_in(v3(b), m),
    ensures
        v3(r) == s_sub3(v3(a), v3(b)),
        v3_in(v3(r), 2 * m),
{
    Vec3 { x: a.x - b.x, y: a.y - b.y, z: a.z - b.z }
}

/// Fixed-point dot product of 3-vectors.
pub fn dot3(a: Vec3, b: Vec3, Ghost(ma): Ghost<int>, Ghost(mb): Ghost<int>) -> (r: i128)
    requires
        0 <= ma,
        0 <= mb,
        v3_in(v3(a), ma),
        v3_in(v3(b), mb),
        ma * mb <= PROD_LIM,
    ensures
        r == s_dot3(v3(a), v3(b)),
        iabs(r as int) <= 3 * ((ma * mb) / (FP_ONE as int)),
{
    proof {
        lemma_smul_bound(a.x as int, b.x as int, ma, mb);
        lemma_smul_bound(a.y as int, b.y as int, ma, mb);
        lemma_smul_bound(a.z as int, b.z as int, ma, mb);
        vstd::arithmetic::div_mod::lemma_div_is_ordered(ma * mb, PROD_LIM as int, FP_ONE as int);
    }
    let t0: i128 = mul_fx(a.x, b.x);
    let t1: i128 = mul_fx(a.y, b.y);
    let t2: i128 = mul_fx(a.z, b.z);
    t0 + t1 + t2
}

/// Fixed-point dot product of 4-vectors.
pub fn dot4(a: Vec4, b: Vec4, Ghost(ma): Ghost<int>, Ghost(mb): Ghost<int>) -> (r: i128)
    requires
        0 <= ma,
        0 <= mb,
        v4_in(v4(a), ma),
        v4_in(v4(b), mb),
        ma * mb <= PROD_LIM,
    ensures
        r == s_dot4(v4(a), v4(b)),
        iabs(r as int) <= 4 * ((ma * mb) / (FP_ONE as int)),
{
    proof {
        lemma_smul_bound(a.x as int, b.x as int, ma, mb);
        lemma_smul_bound(a.y as int, b.y as int, ma, mb);
        lemma_smul_bound(a.z as int, b.z as int, ma, mb);
        lemma_smul_bound(a.w as int, b.w as int, ma, mb);
        vstd::arithmetic::div_mod::lemma_div_is_ordered(ma * mb, PROD_LIM as int, FP_ONE as int);
    }
    let t0: i128 = mul_fx(a.x, b.x);
    let t1: i128 = mul_fx(a.y, b.y);
    let t2: i128 = mul_fx(a.z, b.z);
    let t3: i128 = mul_fx(a.w, b.w);
    t0 + t1 + t2 + t3
}

/// Fixed-point cross product.
pub fn cross3(a: Vec3, b: Vec3, Ghost(m): Ghost<int>) -> (r: Vec3)
    requires
        0 <= m,
        v3_in(v3(a), m),
        v3_in(v3(b), m),
        m * m <= PROD_LIM,
    ensures
        v3(r) == s_cross3(v3(a), v3(b)),
        v3_in(v3(r), 2 * ((m * m) / (FP_ONE as int))),
{
    proof {
        lemma_smul_bound(a.y as int, b.z as int, m, m);
        lemma_smul_bound(a.z as int, b.y as int, m, m);
        lemma_smul_bound(a.z as int, b.x as int, m, m);
        lemma_smul_bound(a.x as int, b.z as int, m, m);
        lemma_smul_bound(a.x as int, b.y as int, m, m);
        lemma_smul_bound(a.y as int, b.x as int, m, m);
        vstd::arithmetic::div_mod::lemma_div_is_ordered(m * m, PROD_LIM as int, FP_ONE as int);
    }
    let x0: i128 = mul_fx(a.y, b.z);
    let x1: i128 = mul_fx(a.z, b.y);
    let y0: i128 = mul_fx(a.z, b.x);
    let y1: i128 = mul_fx(a.x, b.z);
    let z0: i128 = mul_fx(a.x, b.y);
    let z1: i128 = mul_fx(a.y, b.x);
    Vec3 { x: x0 - x1, y: y0 - y1, z: z0 - z1 }
}

/// `a` scaled to unit length (all components end up within the
/// fixed-point unit); the zero vector stays zero.
pub fn normalize(a: Vec3, Ghost(m): Ghost<int>) -> (r: Vec3)
    requires
        0 <= m <= LIM_NORM_IN,
        v3_in(v3(a), m),
    ensures
        v3(r) == s_normalize(v3(a)),
        v3_in(v3(r), FP_ONE as int),
{
    proof {
        assert(a.x * a.x <= m * m && a.y * a.y <= m * m && a.z * a.z <= m * m && 0 <= a.x * a.x
            && 0 <= a.y * a.y && 0 <= a.z * a.z && m * m
            <= 10_000_000_000_000_000_000_000_000_000_000_000) by (nonlinear_arith)
            requires
                iabs(a.x as int) <= m,
                iabs(a.y as int) <= m,
                iabs(a.z as int) <= m,
                0 <= m <= LIM_NORM_IN,
        ;
    }
    let n2: i128 = a.x * a.x + a.y * a.y + a.z * a.z;
    let l: u128 = isqrt(n2 as u128);
    proof {
        assert(is_sqrt(n2 as int, l as int));
        assert(l * l <= n2);
        assert(l <= 200_000_000_000_000_000u128) by (nonlinear_arith)
            requires
                l * l <= n2 as int,
                n2 as int <= 30_000_000_000_000_000_000_000_000_000_000_000,
        ;
    }
    if l == 0 {
        Vec3 { x: 0, y: 0, z: 0 }
    } else {
        let li: i128 = l as i128;
        proof {
            assert(iabs(a.x as int) <= l as int && iabs(a.y as int) <= l as int && iabs(
                a.z as int,
            ) <= l as int) by (nonlinear_arith)
                requires
                    a.x * a.x <= n2 as int && a.y * a.y <= n2 as int && a.z * a.z <= n2 as int,
                    (n2 as int) < (l as int + 1) * (l as int + 1),
                    0 <= l,
            ;
            assert(iabs(a.x * FP_ONE) <= (l as int) * (FP_ONE as int) && iabs(a.y * FP_ONE) <= (
            l as int) * (FP_ONE as int) && iabs(a.z * FP_ONE) <= (l as int) * (FP_ONE as int))
                by (nonlinear_arith)
                requires
                    iabs(a.x as int) <= l as int,
                    iabs(a.y as int) <= l as int,
                    iabs(a.z as int) <= l as int,
                    0 < FP_ONE,
            ;
            assert((l as int) * (FP_ONE as int) <= PROD_LIM);
            lemma_divt_bound(a.x * FP_ONE, l as int, (l as int) * (FP_ONE as int));
            lemma_divt_bound(a.y * FP_ONE, l as int, (l as int) * (FP_ONE as int));
            lemma_divt_bound(a.z * FP_ONE, l as int, (l as int) * (FP_ONE as int));
            vstd::arithmetic::div_mod::lemma_div_by_multiple(FP_ONE as int, l as int);
            assert((FP_ONE as int) * (l as int) == (l as int) * (FP_ONE as int))
                by (nonlinear_arith);
        }
        let rx: i128 = div_fx(a.x * FP_ONE, li);
        let ry: i128 = div_fx(a.y * FP_ONE, li);
        let rz: i128 = div_fx(a.z * FP_ONE, li);
        Vec3 { x: rx, y: ry, z: rz }
    }
}

/// The reflection of `incident` about the plane with normal `normal`.
pub fn reflect(incident: Vec3, normal: Vec3) -> (r: Vec3)
    requires
        v3_in(v3(incident), LIM_IN as int),
        v3_in(v3(normal), LIM_IN as int),
    ensures
        v3(r) == s_reflect(v3(incident), v3(normal)),
{
    let d: i128 = dot3(incident, normal, Ghost(LIM_IN as int), Ghost(LIM_IN as int));
    proof {
        assert(iabs(d as int) <= 3_000_000_000_000);
        lemma_smul_bound(normal.x as int, d as int, LIM_IN as int, 3_000_000_000_000);
        lemma_smul_bound(normal.y as int, d as int, LIM_IN as int, 3_000_000_000_000);
        lemma_smul_bound(normal.z as int, d as int, LIM_IN as int, 3_000_000_000_000);
    }
    let bx: i128 = mul_fx(normal.x, d);
    let by: i128 = mul_fx(normal.y, d);
    let bz: i128 = mul_fx(normal.z, d);
    Vec3 { x: incident.x - 2 * bx, y: incident.y - 2 * by, z: incident.z - 2 * bz }
}

/// The translation-only model matrix for an object offset.
pub fn translation_mat(ox: i128, oy: i128, oz: i128) -> (r: Mat4)
    requires
        iabs(ox as int) <= LIM_IN,
        iabs(oy as int) <= LIM_IN,
        iabs(oz as int) <= LIM_IN,
    ensures
        m4(r) == s_translation(ox as int, oy as int, oz as int),
        m4_in(m4(r), LIM_IN as int),
{
    Mat4 {
        r0: Vec4 { x: FP_ONE, y: 0, z: 0, w: ox },
        r1: Vec4 { x: 0, y: FP_ONE, z: 0, w: oy },
        r2: Vec4 { x: 0, y: 0, z: FP_ONE, w: oz },
        r3: Vec4 { x: 0, y: 0, z: 0, w: FP_ONE },
    }
}

/// `m` applied to the homogeneous vector `v`.
pub fn transform(m: Mat4, v: Vec4, Ghost(mm): Ghost<int>, Ghost(mv): Ghost<int>) -> (r: Vec4)
    requires
        0 <= mm,
        0 <= mv,
        m4_in(m4(m), mm),
        v4_in(v4(v), mv),
        mm * mv <= PROD_LIM,
    ensures
        v4(r) == s_transform(m4(m), v4(v)),
        v4_in(v4(r), 4 * ((mm * mv) / (FP_ONE as int))),
{
    let x: i128 = dot4(m.r0, v, Ghost(mm), Ghost(mv));
    let y: i128 = dot4(m.r1, v, Ghost(mm), Ghost(mv));
    let z: i128 = dot4(m.r2, v, Ghost(mm), Ghost(mv));
    let w: i128 = dot4(m.r3, v, Ghost(mm), Ghost(mv));
    Vec4 { x, y, z, w }
}

/// Row-by-column fixed-point matrix product.
pub fn mat_mul(a: Mat4, b: Mat4, Ghost(ma): Ghost<int>, Ghost(mb): Ghost<int>) -> (r: Mat4)
    requires
        0 <= ma,
        0 <= mb,
        m4_in(m4(a), ma),
        m4_in(m4(b), mb),
        ma * mb <= PROD_LIM,
    ensures
        m4(r) == s_mat_mul(m4(a), m4(b)),
        m4_in(m4(r), 4 * ((ma * mb) / (FP_ONE as int))),
{
    let c0: Vec4 = Vec4 { x: b.r0.x, y: b.r1.x, z: b.r2.x, w: b.r3.x };
    let c1: Vec4 = Vec4 { x: b.r0.y, y: b.r1.y, z: b.r2.y, w: b.r3.y };
    let c2: Vec4 = Vec4 { x: b.r0.z, y: b.r1.z, z: b.r2.z, w: b.r3.z };
    let c3: Vec4 = Vec4 { x: b.r0.w, y: b.r1.w, z: b.r2.w, w: b.r3.w };
    let r0: Vec4 = Vec4 {
        x: dot4(a.r0, c0, Ghost(ma), Ghost(mb)),
        y: dot4(a.r0, c1, Ghost(ma), Ghost(mb)),
        z: dot4(a.r0, c2, Ghost(ma), Ghost(mb)),
        w: dot4(a.r0, c3, Ghost(ma), Ghost(mb)),
    };
    let r1: Vec4 = Vec4 {
        x: dot4(a.r1, c0, Ghost(ma), Ghost(mb)),
        y: dot4(a.r1, c1, Ghost(ma), Ghost(mb)),
        z: dot4(a.r1, c2, Ghost(ma), Ghost(mb)),
        w: dot4(a.r1, c3, Ghost(ma), Ghost(mb)),
    };
    let r2: Vec4 = Vec4 {
        x: dot4(a.r2, c0, Ghost(ma), Ghost(mb)),
        y: dot4(a.r2, c1, Ghost(ma), Ghost(mb)),
        z: dot4(a.r2, c2, Ghost(ma), Ghost(mb)),
        w: dot4(a.r2, c3, Ghost(ma), Ghost(mb)),
    };
    let r3: Vec4 = Vec4 {
        x: dot4(a.r3, c0, Ghost(ma), Ghost(mb)),
        y: dot4(a.r3, c1, Ghost(ma), Ghost(mb)),
        z: dot4(a.r3, c2, Ghost(ma), Ghost(mb)),
        w: dot4(a.r3, c3, Ghost(ma), Ghost(mb)),
    };
    Mat4 { r0, r1, r2, r3 }
}

/// The right-handed look-at view matrix for a camera pose.
pub fn look_at(eye: Vec3, target: Vec3, up: Vec3) -> (r: Mat4)
    requires
        v3_in(v3(eye), LIM_IN as int),
        v3_in(v3(target), LIM_IN as int),
        v3_in(v3(up), LIM_IN as int),
    ensures
        m4(r) == s_look_at(v3(eye), v3(target), v3(up)),
        m4_in(m4(r), crate::fx::LIM_MAT as int),
        m4(r).r3 == (V4 { x: 0, y: 0, z: 0, w: FP_ONE as int }),
{
    let dir: Vec3 = sub3(target, eye, Ghost(LIM_IN as int));
    let f: Vec3 = normalize(dir, Ghost(2 * LIM_IN as int));
    let s0: Vec3 = cross3(f, up, Ghost(LIM_IN as int));
    let s: Vec3 = normalize(s0, Ghost(2 * (((LIM_IN as int) * (LIM_IN as int)) / (FP_ONE as int))));
    let u: Vec3 = cross3(s, f, Ghost(FP_ONE as int));
    let tx: i128 = dot3(s, eye, Ghost(FP_ONE as int), Ghost(LIM_IN as int));
    let ty: i128 = dot3(u, eye, Ghost(2 * (((FP_ONE as int) * (FP_ONE as int)) / (FP_ONE as int))),
        Ghost(LIM_IN as int));
    let tz: i128 = dot3(f, eye, Ghost(FP_ONE as int), Ghost(LIM_IN as int));
    Mat4 {
        r0: Vec4 { x: s.x, y: s.y, z: s.z, w: -tx },
        r1: Vec4 { x: u.x, y: u.y, z: u.z, w: -ty },
        r2: Vec4 { x: -f.x, y: -f.y, z: -f.z, w: tz },
        r3: Vec4 { x: 0, y: 0, z: 0, w: FP_ONE },
    }
}

} // verus!
