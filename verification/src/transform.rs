//! Local transforms (translate × rotate × scale) and affine world transforms.
//!
//! A rotation is stored as a 3×3 fixed-point matrix; composing transforms
//! and mapping points uses the saturating fixed-point operations, so every
//! result stays representable.

use vstd::prelude::*;

use crate::fixed::{fx_add, fx_in_range, fx_mul, spec_fx_add, spec_fx_mul, FX_ONE};
use crate::vec3::{spec_v3_add, v3_in_range, V3, V3i};

verus! {

/// A 3×3 matrix of fixed-point entries, stored by rows.
#[derive(Clone, Copy, Debug)]
pub struct Mat3 {
    pub rx: V3,
    pub ry: V3,
    pub rz: V3,
}

/// Mathematical image of a matrix: three row vectors.
pub struct Mat3i {
    pub rx: V3i,
    pub ry: V3i,
    pub rz: V3i,
}

impl View for Mat3 {
    type V = Mat3i;

    open spec fn view(&self) -> Mat3i {
        Mat3i { rx: self.rx@, ry: self.ry@, rz: self.rz@ }
    }
}

pub open spec fn mat3_in_range(m: Mat3i) -> bool {
    v3_in_range(m.rx) && v3_in_range(m.ry) && v3_in_range(m.rz)
}

/// Fixed-point dot product of a row and a column vector.
pub open spec fn spec_dot(r: V3i, v: V3i) -> int {
    spec_fx_add(spec_fx_add(spec_fx_mul(r.x, v.x), spec_fx_mul(r.y, v.y)), spec_fx_mul(r.z, v.z))
}

/// Matrix × vector.
pub open spec fn spec_mat_apply(m: Mat3i, v: V3i) -> V3i {
    V3i { x: spec_dot(m.rx, v), y: spec_dot(m.ry, v), z: spec_dot(m.rz, v) }
}

/// The `j`-th column of a matrix.
pub open spec fn spec_col(m: Mat3i, j: int) -> V3i {
    if j == 0 {
        V3i { x: m.rx.x, y: m.ry.x, z: m.rz.x }
    } else if j == 1 {
        V3i { x: m.rx.y, y: m.ry.y, z: m.rz.y }
    } else {
        V3i { x: m.rx.z, y: m.ry.z, z: m.rz.z }
    }
}

/// Matrix × matrix.
pub open spec fn spec_mat_mul(a: Mat3i, b: Mat3i) -> Mat3i {
    Mat3i {
        rx: V3i {
            x: spec_dot(a.rx, spec_col(b, 0)),
            y: spec_dot(a.rx, spec_col(b, 1)),
            z: spec_dot(a.rx, spec_col(b, 2)),
        },
        ry: V3i {
            x: spec_dot(a.ry, spec_col(b, 0)),
            y: spec_dot(a.ry, spec_col(b, 1)),
            z: spec_dot(a.ry, spec_col(b, 2)),
        },
        rz: V3i {
            x: spec_dot(a.rz, spec_col(b, 0)),
            y: spec_dot(a.rz, spec_col(b, 1)),
            z: spec_dot(a.rz, spec_col(b, 2)),
        },
    }
}

/// Scale the columns of a rotation by the per-axis scale factors,
/// giving the linear part of a translate × rotate × scale transform.
pub open spec fn spec_scale_cols(m: Mat3i, s: V3i) -> Mat3i {
    Mat3i {
        rx: V3i { x: spec_fx_mul(m.rx.x, s.x), y: spec_fx_mul(m.rx.y, s.y), z: spec_fx_mul(m.rx.z, s.z) },
        ry: V3i { x: spec_fx_mul(m.ry.x, s.x), y: spec_fx_mul(m.ry.y, s.y), z: spec_fx_mul(m.ry.z, s.z) },
        rz: V3i { x: spec_fx_mul(m.rz.x, s.x), y: spec_fx_mul(m.rz.y, s.y), z: spec_fx_mul(m.rz.z, s.z) },
    }
}

pub open spec fn spec_mat_identity() -> Mat3i {
    Mat3i {
        rx: V3i { x: FX_ONE as int, y: 0, z: 0 },
        ry: V3i { x: 0, y: FX_ONE as int, z: 0 },
        rz: V3i { x: 0, y: 0, z: FX_ONE as int },
    }
}

impl Mat3 {
    pub open spec fn wf(&self) -> bool {
        mat3_in_range(self@)
    }

    /// Runtime check of `wf`, for data arriving from outside the library.
    pub fn check_in_range(&self) -> (r: bool)
        ensures
            r == self.wf(),
    {
        self.rx.check_in_range() && self.ry.check_in_range() && self.rz.check_in_range()
    }

    pub fn identity() -> (r: Mat3)
        ensures
            r@ == spec_mat_identity(),
            r.wf(),
    {
        Mat3 {
            rx: V3 { x: FX_ONE, y: 0, z: 0 },
            ry: V3 { x: 0, y: FX_ONE, z: 0 },
            rz: V3 { x: 0, y: 0, z: FX_ONE },
        }
    }

    pub fn apply(&self, v: &V3) -> (r: V3)
        requires
            self.wf(),
            v.wf(),
        ensures
            r@ == spec_mat_apply(self@, v@),
            r.wf(),
    {
        V3 { x: dot(&self.rx, v), y: dot(&self.ry, v), z: dot(&self.rz, v) }
    }

    pub fn mul_mat(&self, other: &Mat3) -> (r: Mat3)
        requires
            self.wf(),
            other.wf(),
        ensures
            r@ == spec_mat_mul(self@, other@),
            r.wf(),
    {
        let c0 = V3 { x: other.rx.x, y: other.ry.x, z: other.rz.x };
        let c1 = V3 { x: other.rx.y, y: other.ry.y, z: other.rz.y };
        let c2 = V3 { x: other.rx.z, y: other.ry.z, z: other.rz.z };
        Mat3 {
            rx: V3 { x: dot(&self.rx, &c0), y: dot(&self.rx, &c1), z: dot(&self.rx, &c2) },
            ry: V3 { x: dot(&self.ry, &c0), y: dot(&self.ry, &c1), z: dot(&self.ry, &c2) },
            rz: V3 { x: dot(&self.rz, &c0), y: dot(&self.rz, &c1), z: dot(&self.rz, &c2) },
        }
    }

    pub fn scale_cols(&self, s: &V3) -> (r: Mat3)
        requires
            self.wf(),
            s.wf(),
        ensures
            r@ == spec_scale_cols(self@, s@),
            r.wf(),
    {
        Mat3 {
            rx: V3 { x: fx_mul(self.rx.x, s.x), y: fx_mul(self.rx.y, s.y), z: fx_mul(self.rx.z, s.z) },
            ry: V3 { x: fx_mul(self.ry.x, s.x), y: fx_mul(self.ry.y, s.y), z: fx_mul(self.ry.z, s.z) },
            rz: V3 { x: fx_mul(self.rz.x, s.x), y: fx_mul(self.rz.y, s.y), z: fx_mul(self.rz.z, s.z) },
        }
    }
}

fn dot(r: &V3, v: &V3) -> (d: i64)
    requires
        r.wf(),
        v.wf(),
    ensures
        d as int == spec_dot(r@, v@),
        fx_in_range(d as int),
{
    fx_add(fx_add(fx_mul(r.x, v.x), fx_mul(r.y, v.y)), fx_mul(r.z, v.z))
}

/// An affine map: a linear part applied first, then an offset.
#[derive(Clone, Copy, Debug)]
pub struct Affine {
    pub linear: Mat3,
    pub offset: V3,
}

/// Mathematical image of an affine map.
pub struct AffineI {
    pub linear: Mat3i,
    pub offset: V3i,
}

impl View for Affine {
    type V = AffineI;

    open spec fn view(&self) -> AffineI {
        AffineI { linear: self.linear@, offset: self.offset@ }
    }
}

pub open spec fn spec_affine_apply(a: AffineI, v: V3i) -> V3i {
    spec_v3_add(spec_mat_apply(a.linear, v), a.offset)
}

/// `parent` after `child`: the map taking local coordinates of the child
/// through the child's frame into the parent's frame.
pub open spec fn spec_affine_compose(parent: AffineI, child: AffineI) -> AffineI {
    AffineI {
        linear: spec_mat_mul(parent.linear, child.linear),
        offset: spec_v3_add(spec_mat_apply(parent.linear, child.offset), parent.offset),
    }
}

pub open spec fn spec_affine_identity() -> AffineI {
    AffineI { linear: spec_mat_identity(), offset: V3i { x: 0, y: 0, z: 0 } }
}

impl Affine {
    pub open spec fn wf(&self) -> bool {
        self.linear.wf() && self.offset.wf()
    }

    pub fn identity() -> (r: Affine)
        ensures
            r@ == spec_affine_identity(),
            r.wf(),
    {
        Affine { linear: Mat3::identity(), offset: V3::zero() }
    }

    pub fn apply(&self, v: &V3) -> (r: V3)
        requires
            self.wf(),
            v.wf(),
        ensures
            r@ == spec_affine_apply(self@, v@),
            r.wf(),
    {
        self.linear.apply(v).add(&self.offset)
    }

    pub fn compose(&self, child: &Affine) -> (r: Affine)
        requires
            self.wf(),
            child.wf(),
        ensures
            r@ == spec_affine_compose(self@, child@),
            r.wf(),
    {
        Affine {
            linear: self.linear.mul_mat(&child.linear),
            offset: self.linear.apply(&child.offset).add(&self.offset),
        }
    }
}

/// A local transform: translation, rotation and per-axis scale,
/// composed in the standard translate × rotate × scale order.
#[derive(Clone, Copy, Debug)]
pub struct Transform {
    pub translation: V3,
    pub rotation: Mat3,
    pub scale: V3,
}

/// Mathematical image of a local transform.
pub struct TransformI {
    pub translation: V3i,
    pub rotation: Mat3i,
    pub scale: V3i,
}

impl View for Transform {
    type V = TransformI;

    open spec fn view(&self) -> TransformI {
        TransformI { translation: self.translation@, rotation: self.rotation@, scale: self.scale@ }
    }
}

/// All components of a local transform are representable.
pub open spec fn transform_in_range(t: TransformI) -> bool {
    v3_in_range(t.translation) && mat3_in_range(t.rotation) && v3_in_range(t.scale)
}

/// The affine map of a local transform: rotation columns scaled per axis,
/// offset by the translation.
pub open spec fn spec_trs_affine(t: TransformI) -> AffineI {
    AffineI { linear: spec_scale_cols(t.rotation, t.scale), offset: t.translation }
}

impl Transform {
    pub open spec fn wf(&self) -> bool {
        transform_in_range(self@)
    }

    /// Runtime check of `wf`, for data arriving from outside the library.
    pub fn check_in_range(&self) -> (r: bool)
        ensures
            r == self.wf(),
    {
        self.translation.check_in_range() && self.rotation.check_in_range()
            && self.scale.check_in_range()
    }

    /// The identity local transform: no translation, no rotation, unit scale.
    pub fn identity() -> (r: Transform)
        ensures
            r@ == (TransformI {
                translation: V3i { x: 0, y: 0, z: 0 },
                rotation: spec_mat_identity(),
                scale: V3i { x: FX_ONE as int, y: FX_ONE as int, z: FX_ONE as int },
            }),
            r.wf(),
    {
        Transform {
            translation: V3::zero(),
            rotation: Mat3::identity(),
            scale: V3 { x: FX_ONE, y: FX_ONE, z: FX_ONE },
        }
    }

    pub fn to_affine(&self) -> (r: Affine)
        requires
            self.wf(),
        ensures
            r@ == spec_trs_affine(self@),
            r.wf(),
    {
        Affine { linear: self.rotation.scale_cols(&self.scale), offset: self.translation }
    }
}

} // verus!
