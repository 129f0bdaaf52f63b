//! Three-component fixed-point vectors and axis-aligned boxes.

use vstd::prelude::*;

use crate::fixed::{
    fx_add, fx_half, fx_in_range, fx_max, fx_min, fx_mul, fx_sub, spec_fx_add, spec_fx_half,
    spec_fx_mul, spec_fx_sub, spec_max, spec_min, FX_MAX,
};

verus! {

/// A point or direction in world space, in raw fixed-point coordinates.
#[derive(Clone, Copy, Debug)]
pub struct V3 {
    pub x: i64,
    pub y: i64,
    pub z: i64,
}

/// Mathematical image of a vector: a triple of unbounded integers.
pub struct V3i {
    pub x: int,
    pub y: int,
    pub z: int,
}

impl View for V3 {
    type V = V3i;

    open spec fn view(&self) -> V3i {
        V3i { x: self.x as int, y: self.y as int, z: self.z as int }
    }
}

pub open spec fn v3_in_range(v: V3i) -> bool {
    fx_in_range(v.x) && fx_in_range(v.y) && fx_in_range(v.z)
}

pub open spec fn spec_v3_add(a: V3i, b: V3i) -> V3i {
    V3i { x: spec_fx_add(a.x, b.x), y: spec_fx_add(a.y, b.y), z: spec_fx_add(a.z, b.z) }
}

pub open spec fn spec_v3_sub(a: V3i, b: V3i) -> V3i {
    V3i { x: spec_fx_sub(a.x, b.x), y: spec_fx_sub(a.y, b.y), z: spec_fx_sub(a.z, b.z) }
}

/// Scale every component by the fixed-point factor `s`.
pub open spec fn spec_v3_scale(a: V3i, s: int) -> V3i {
    V3i { x: spec_fx_mul(a.x, s), y: spec_fx_mul(a.y, s), z: spec_fx_mul(a.z, s) }
}

pub open spec fn spec_v3_min(a: V3i, b: V3i) -> V3i {
    V3i { x: spec_min(a.x, b.x), y: spec_min(a.y, b.y), z: spec_min(a.z, b.z) }
}

pub open spec fn spec_v3_max(a: V3i, b: V3i) -> V3i {
    V3i { x: spec_max(a.x, b.x), y: spec_max(a.y, b.y), z: spec_max(a.z, b.z) }
}

/// Midpoint of two vectors, each component rounded toward zero.
pub open spec fn spec_v3_mid(a: V3i, b: V3i) -> V3i {
    V3i {
        x: spec_fx_half(spec_fx_add(a.x, b.x)),
        y: spec_fx_half(spec_fx_add(a.y, b.y)),
        z: spec_fx_half(spec_fx_add(a.z, b.z)),
    }
}

impl V3 {
    pub open spec fn wf(&self) -> bool {
        v3_in_range(self@)
    }

    pub fn new(x: i64, y: i64, z: i64) -> (r: V3)
        requires
            fx_in_range(x as int),
            fx_in_range(y as int),
            fx_in_range(z as int),
        ensures
            r@ == (V3i { x: x as int, y: y as int, z: z as int }),
            r.wf(),
    {
        V3 { x, y, z }
    }

    /// Runtime check of `wf`, for data arriving from outside the library.
    pub fn check_in_range(&self) -> (r: bool)
        ensures
            r == self.wf(),
    {
        -FX_MAX <= self.x && self.x <= FX_MAX && -FX_MAX <= self.y && self.y <= FX_MAX
            && -FX_MAX <= self.z && self.z <= FX_MAX
    }

    pub fn zero() -> (r: V3)
        ensures
            r@ == (V3i { x: 0int, y: 0int, z: 0int }),
            r.wf(),
    {
        V3 { x: 0, y: 0, z: 0 }
    }

    pub fn add(&self, other: &V3) -> (r: V3)
        requires
            self.wf(),
            other.wf(),
        ensures
            r@ == spec_v3_add(self@, other@),
            r.wf(),
    {
        V3 { x: fx_add(self.x, other.x), y: fx_add(self.y, other.y), z: fx_add(self.z, other.z) }
    }

    pub fn sub(&self, other: &V3) -> (r: V3)
        requires
            self.wf(),
            other.wf(),
        ensures
            r@ == spec_v3_sub(self@, other@),
            r.wf(),
    {
        V3 { x: fx_sub(self.x, other.x), y: fx_sub(self.y, other.y), z: fx_sub(self.z, other.z) }
    }

    pub fn scale(&self, s: i64) -> (r: V3)
        requires
            self.wf(),
            fx_in_range(s as int),
        ensures
            r@ == spec_v3_scale(self@, s as int),
            r.wf(),
    {
        V3 { x: fx_mul(self.x, s), y: fx_mul(self.y, s), z: fx_mul(self.z, s) }
    }

    pub fn min2(&self, other: &V3) -> (r: V3)
        ensures
            r@ == spec_v3_min(self@, other@),
    {
        V3 { x: fx_min(self.x, other.x), y: fx_min(self.y, other.y), z: fx_min(self.z, other.z) }
    }

    pub fn max2(&self, other: &V3) -> (r: V3)
        ensures
            r@ == spec_v3_max(self@, other@),
    {
        V3 { x: fx_max(self.x, other.x), y: fx_max(self.y, other.y), z: fx_max(self.z, other.z) }
    }

    pub fn mid(&self, other: &V3) -> (r: V3)
        requires
            self.wf(),
            other.wf(),
        ensures
            r@ == spec_v3_mid(self@, other@),
            r.wf(),
    {
        V3 {
            x: fx_half(fx_add(self.x, other.x)),
            y: fx_half(fx_add(self.y, other.y)),
            z: fx_half(fx_add(self.z, other.z)),
        }
    }
}

/// An axis-aligned box given by its two extreme corners.
#[derive(Clone, Copy, Debug)]
pub struct Aabb {
    pub min: V3,
    pub max: V3,
}

/// Mathematical image of a box.
pub struct AabbI {
    pub min: V3i,
    pub max: V3i,
}

pub open spec fn aabb_in_range(b: AabbI) -> bool {
    v3_in_range(b.min) && v3_in_range(b.max)
}

impl View for Aabb {
    type V = AabbI;

    open spec fn view(&self) -> AabbI {
        AabbI { min: self.min@, max: self.max@ }
    }
}

impl Aabb {
    pub open spec fn wf(&self) -> bool {
        aabb_in_range(self@)
    }

    /// Runtime check of `wf`, for data arriving from outside the library.
    pub fn check_in_range(&self) -> (r: bool)
        ensures
            r == self.wf(),
    {
        self.min.check_in_range() && self.max.check_in_range()
    }

    pub fn new(min: V3, max: V3) -> (r: Aabb)
        requires
            min.wf(),
            max.wf(),
        ensures
            r@ == (AabbI { min: min@, max: max@ }),
            r.wf(),
    {
        Aabb { min, max }
    }
}

/// The corner of a box selected by three axis choices
/// (`false` picks the `min` coordinate, `true` the `max`).
pub open spec fn spec_corner(b: AabbI, cx: bool, cy: bool, cz: bool) -> V3i {
    V3i {
        x: if cx {
            b.max.x
        } else {
            b.min.x
        },
        y: if cy {
            b.max.y
        } else {
            b.min.y
        },
        z: if cz {
            b.max.z
        } else {
            b.min.z
        },
    }
}

impl Aabb {
    /// One of the eight corners, numbered by the three low bits of `i`.
    pub fn corner(&self, i: usize) -> (r: V3)
        requires
            i < 8,
        ensures
            r@ == spec_corner(self@, i % 2 == 1, (i / 2) % 2 == 1, i / 4 == 1),
    {
        V3 {
            x: if i % 2 == 1 {
                self.max.x
            } else {
                self.min.x
            },
            y: if (i / 2) % 2 == 1 {
                self.max.y
            } else {
                self.min.y
            },
            z: if i / 4 == 1 {
                self.max.z
            } else {
                self.min.z
            },
        }
    }
}

} // verus!
