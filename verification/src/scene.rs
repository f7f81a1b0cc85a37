//! Scene model: objects, camera, light, and the world aggregate.

use vstd::prelude::*;

use crate::fx::{div_fx, divt, iabs, lemma_smul_unit, smul, FP_ONE, LIM_DIM, LIM_IN, LIM_MAT,
    LIM_VM, PROD_LIM};
use crate::math::{
    cross3, m4, m4_in, mat_mul, normalize, s_cross3, s_look_at, s_mat_mul, s_normalize, s_sub3,
    s_transform, sub3, transform, v3, v3_in, v4, Mat4, Vec3, Vec4, M4, V3, V4,
};
use crate::mesh::{mesh_wf, Mesh};

verus! {

/// Camera positions and targets stay this far inside the scene range so
/// that one movement step cannot leave it.
pub const CAM_MOVE_LIM: i128 = 99_920_000;

/// An object: one mesh plus a world-space translation offset.
pub struct Object {
    pub mesh: Mesh,
    pub offset_x: i128,
    pub offset_y: i128,
    pub offset_z: i128,
}

/// The camera pose; `pitch` and `yaw` are orbit angles kept for the
/// input collaborator and never read by the render pipeline.
pub struct Camera {
    pub position: Vec3,
    pub target: Vec3,
    pub up: Vec3,
    pub pitch: i128,
    pub yaw: i128,
}

/// A directional-ish light: direction runs from `position` to `target`.
pub struct Light {
    pub position: Vec3,
    pub target: Vec3,
    pub intensity: i128,
    pub ambient: i128,
}

/// The root aggregate: camera, light, objects, the fixed projection
/// matrix, and the output image dimensions.
pub struct World {
    pub camera: Camera,
    pub light: Light,
    pub models: Vec<Object>,
    pub proj_mat: Mat4,
    pub width: usize,
    pub height: usize,
}

/// Which directional movement signals are active this frame.
#[derive(Clone, Copy, PartialEq, Eq, Structural, Debug)]
pub struct MoveKeys {
    pub left: bool,
    pub right: bool,
    pub forward: bool,
    pub backward: bool,
}

/// Ghost mirror of a camera pose.
pub ghost struct CamV {
    pub position: V3,
    pub target: V3,
    pub up: V3,
    pub pitch: int,
    pub yaw: int,
}

/// The mathematical value of a camera pose.
pub open spec fn camv(c: Camera) -> CamV {
    CamV {
        position: v3(c.position),
        target: v3(c.target),
        up: v3(c.up),
        pitch: c.pitch as int,
        yaw: c.yaw as int,
    }
}

/// Camera invariant: position and target inside the movement margin,
/// up vector within twice the unit.
pub open spec fn camera_wf(c: Camera) -> bool {
    v3_in(v3(c.position), LIM_IN as int) && v3_in(v3(c.target), LIM_IN as int) && v3_in(
        v3(c.up),
        2 * FP_ONE as int,
    )
}

/// Light invariant: all fields within the scene input range.
pub open spec fn light_wf(l: Light) -> bool {
    v3_in(v3(l.position), LIM_IN as int) && v3_in(v3(l.target), LIM_IN as int) && iabs(
        l.intensity as int,
    ) <= LIM_IN as int && iabs(l.ambient as int) <= LIM_IN as int
}

/// Object invariant: a well-formed mesh and in-range offsets.
pub open spec fn object_wf(o: Object) -> bool {
    mesh_wf(o.mesh) && iabs(o.offset_x as int) <= LIM_IN as int && iabs(o.offset_y as int)
        <= LIM_IN as int && iabs(o.offset_z as int) <= LIM_IN as int
}

/// World invariant.
pub open spec fn world_wf(w: World) -> bool {
    &&& camera_wf(w.camera)
    &&& light_wf(w.light)
    &&& m4_in(m4(w.proj_mat), LIM_MAT as int)
    &&& w.width <= LIM_DIM
    &&& w.height <= LIM_DIM
    &&& forall|i: int| 0 <= i < w.models@.len() ==> object_wf(#[trigger] w.models@[i])
}

/// The view matrix a camera pose denotes.
pub open spec fn s_view_mat(c: Camera) -> M4 {
    s_look_at(v3(c.position), v3(c.target), v3(c.up))
}

/// The camera-space depth of an object's origin: the world origin is
/// pushed through view times model and perspective-divided.
pub open spec fn s_object_depth(c: Camera, model_mat: M4) -> int {
    let vm = s_mat_mul(s_view_mat(c), model_mat);
    let p = s_transform(vm, V4 { x: 0, y: 0, z: 0, w: FP_ONE as int });
    divt(p.z * (FP_ONE as int), p.w)
}

impl Camera {
    /// The right-handed look-at view matrix for the current pose.
    pub fn generate_view_mat(&self) -> (r: Mat4)
        requires
            camera_wf(*self),
        ensures
            m4(r) == s_view_mat(*self),
            m4_in(m4(r), LIM_MAT as int),
            m4(r).r3 == (V4 { x: 0, y: 0, z: 0, w: FP_ONE as int }),
    {
        crate::math::look_at(self.position, self.target, self.up)
    }
}

impl World {
    /// Assembles the world from its parts.
    pub fn new(
        camera: Camera,
        light: Light,
        proj_mat: Mat4,
        models: Vec<Object>,
        width: usize,
        height: usize,
    ) -> (r: World)
        ensures
            r.camera == camera,
            r.light == light,
            r.proj_mat == proj_mat,
            r.models == models,
            r.width == width,
            r.height == height,
    {
        World { camera, light, models, proj_mat, width, height }
    }
}

/// Sort key for object ordering: the camera-space Z of the object's
/// origin under a view matrix recomputed from the current camera.
pub fn object_depth(camera: &Camera, model_mat: &Mat4) -> (r: i128)
    requires
        camera_wf(*camera),
        m4_in(m4(*model_mat), LIM_IN as int),
        m4(*model_mat).r3 == (V4 { x: 0, y: 0, z: 0, w: FP_ONE as int }),
    ensures
        r == s_object_depth(*camera, m4(*model_mat)),
{
    let view_mat: Mat4 = camera.generate_view_mat();
    let vm: Mat4 = mat_mul(view_mat, *model_mat, Ghost(LIM_MAT as int), Ghost(LIM_IN as int));
    let origin: Vec4 = Vec4 { x: 0, y: 0, z: 0, w: FP_ONE };
    let p: Vec4 = transform(vm, origin, Ghost(LIM_VM as int), Ghost(FP_ONE as int));
    proof {
        lemma_smul_unit(m4(*model_mat).r3.x);
        lemma_smul_unit(m4(*model_mat).r3.y);
        lemma_smul_unit(m4(*model_mat).r3.z);
        lemma_smul_unit(m4(*model_mat).r3.w);
        lemma_smul_unit(m4(vm).r3.x);
        lemma_smul_unit(m4(vm).r3.y);
        lemma_smul_unit(m4(vm).r3.z);
        lemma_smul_unit(m4(vm).r3.w);
        assert(m4(vm).r3 == (V4 { x: 0, y: 0, z: 0, w: FP_ONE as int }));
        assert(v4(p).w == FP_ONE as int);
    }
    div_fx(p.z * FP_ONE, p.w)
}

/// The updated camera pose after one frame of directional movement.
pub open spec fn s_handle_keys(
    c: CamV,
    keys: MoveKeys,
    speed: int,
) -> CamV {
    let dir = s_normalize(s_sub3(c.position, c.target));
    let side = s_cross3(dir, c.up);
    if keys.left {
        CamV {
            position: V3 {
                x: c.position.x + smul(side.x, speed),
                y: c.position.y,
                z: c.position.z + smul(side.z, speed),
            },
            target: V3 {
                x: c.target.x + smul(side.x, speed),
                y: c.target.y,
                z: c.target.z + smul(side.z, speed),
            },
            ..c
        }
    } else if keys.right {
        CamV {
            position: V3 {
                x: c.position.x - smul(side.x, speed),
                y: c.position.y,
                z: c.position.z - smul(side.z, speed),
            },
            target: V3 {
                x: c.target.x - smul(side.x, speed),
                y: c.target.y,
                z: c.target.z - smul(side.z, speed),
            },
            ..c
        }
    } else if keys.forward {
        CamV {
            position: V3 {
                x: c.position.x - smul(dir.x, speed),
                y: c.position.y,
                z: c.position.z - smul(dir.z, speed),
            },
            target: V3 {
                x: c.target.x - smul(dir.x, speed),
                y: c.target.y,
                z: c.target.z - smul(dir.z, speed),
            },
            ..c
        }
    } else if keys.backward {
        CamV {
            position: V3 {
                x: c.position.x + smul(dir.x, speed),
                y: c.position.y,
                z: c.position.z + smul(dir.z, speed),
            },
            target: V3 {
                x: c.target.x + smul(dir.x, speed),
                y: c.target.y,
                z: c.target.z + smul(dir.z, speed),
            },
            ..c
        }
    } else {
        c
    }
}

/// Applies one frame of directional movement to the camera (strafe on
/// the left/right signals, advance/retreat on forward/backward; height
/// is never changed) and returns the view matrix of the updated pose.
pub fn handle_keys(keys: &MoveKeys, camera: &mut Camera, move_speed: i128) -> (r: Mat4)
    requires
        v3_in(v3(old(camera).position), CAM_MOVE_LIM as int),
        v3_in(v3(old(camera).target), CAM_MOVE_LIM as int),
        v3_in(v3(old(camera).up), 2 * FP_ONE as int),
        0 <= move_speed <= FP_ONE,
    ensures
        camv(*final(camera)) == s_handle_keys(camv(*old(camera)), *keys, move_speed as int),
        camera_wf(*final(camera)),
        m4(r) == s_view_mat(*final(camera)),
{
    let dir0: Vec3 = sub3(camera.position, camera.target, Ghost(LIM_IN as int));
    let dir: Vec3 = normalize(dir0, Ghost(2 * LIM_IN as int));
    proof {
        assert((2 * FP_ONE as int) * (2 * FP_ONE as int) <= PROD_LIM) by (nonlinear_arith);
    }
    let side: Vec3 = cross3(dir, camera.up, Ghost(2 * FP_ONE as int));
    proof {
        assert(2 * (((2 * FP_ONE as int) * (2 * FP_ONE as int)) / (FP_ONE as int)) == 80_000)
            by (nonlinear_arith);
        crate::fx::lemma_smul_bound(side.x as int, move_speed as int, 80_000, FP_ONE as int);
        crate::fx::lemma_smul_bound(side.z as int, move_speed as int, 80_000, FP_ONE as int);
        crate::fx::lemma_smul_bound(dir.x as int, move_speed as int, FP_ONE as int, FP_ONE as int);
        crate::fx::lemma_smul_bound(dir.z as int, move_speed as int, FP_ONE as int, FP_ONE as int);
    }
    if keys.left {
        let dx: i128 = crate::fx::mul_fx(side.x, move_speed);
        let dz: i128 = crate::fx::mul_fx(side.z, move_speed);
        camera.position = Vec3 {
            x: camera.position.x + dx,
            y: camera.position.y,
            z: camera.position.z + dz,
        };
        camera.target = Vec3 { x: camera.target.x + dx, y: camera.target.y, z: camera.target.z + dz };
    } else if keys.right {
        let dx: i128 = crate::fx::mul_fx(side.x, move_speed);
        let dz: i128 = crate::fx::mul_fx(side.z, move_speed);
        camera.position = Vec3 {
            x: camera.position.x - dx,
            y: camera.position.y,
            z: camera.position.z - dz,
        };
        camera.target = Vec3 { x: camera.target.x - dx, y: camera.target.y, z: camera.target.z - dz };
    } else if keys.forward {
        let dx: i128 = crate::fx::mul_fx(dir.x, move_speed);
        let dz: i128 = crate::fx::mul_fx(dir.z, move_speed);
        camera.position = Vec3 {
            x: camera.position.x - dx,
            y: camera.position.y,
            z: camera.position.z - dz,
        };
        camera.target = Vec3 { x: camera.target.x - dx, y: camera.target.y, z: camera.target.z - dz };
    } else if keys.backward {
        let dx: i128 = crate::fx::mul_fx(dir.x, move_speed);
        let dz: i128 = crate::fx::mul_fx(dir.z, move_speed);
        camera.position = Vec3 {
            x: camera.position.x + dx,
            y: camera.position.y,
            z: camera.position.z + dz,
        };
        camera.target = Vec3 { x: camera.target.x + dx, y: camera.target.y, z: camera.target.z + dz };
    }
    camera.generate_view_mat()
}

} // verus!
