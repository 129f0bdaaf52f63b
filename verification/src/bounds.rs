//! Bounds accumulation: the world-space bounding box of entity subtrees.
//!
//! Every live entity's world transform is the composition of the local
//! transforms along its parent chain.  An entity with geometry contributes
//! the eight transformed corners of its object-space bounding volume, or —
//! when the geometry exposes no volume — just its world-space origin.
//! The accumulator folds the contributions of every entity rooted at one
//! of the given roots into a running component-wise minimum and maximum.

use vstd::prelude::*;

use crate::scene::{spec_alive, spec_ent, spec_ent_ok, scene_ok, Scene, SceneI};
use crate::transform::{
    spec_affine_apply, spec_affine_compose, spec_affine_identity, spec_trs_affine, Affine,
    AffineI,
};
use crate::vec3::{spec_corner, spec_v3_max, spec_v3_min, v3_in_range, V3, V3i};

verus! {

/// The world transform of entity `e`: local transforms composed from the
/// topmost ancestor down to `e`.  Dead slots map to the identity.
pub open spec fn spec_world(s: SceneI, e: int) -> AffineI
    decreases e,
{
    if spec_alive(s, e) {
        let local = spec_trs_affine(spec_ent(s, e).transform);
        match spec_ent(s, e).parent {
            Some(p) => {
                if 0 <= p < e {
                    spec_affine_compose(spec_world(s, p), local)
                } else {
                    local
                }
            },
            None => local,
        }
    } else {
        spec_affine_identity()
    }
}

/// The topmost ancestor of entity `e`.
pub open spec fn spec_root_of(s: SceneI, e: int) -> int
    decreases e,
{
    if spec_alive(s, e) {
        match spec_ent(s, e).parent {
            Some(p) => {
                if 0 <= p < e {
                    spec_root_of(s, p)
                } else {
                    e
                }
            },
            None => e,
        }
    } else {
        e
    }
}

/// Fold one world-space point into the running bounds.
pub open spec fn spec_fold_point(acc: Option<(V3i, V3i)>, p: V3i) -> Option<(V3i, V3i)> {
    match acc {
        None => Some((p, p)),
        Some((mn, mx)) => Some((spec_v3_min(mn, p), spec_v3_max(mx, p))),
    }
}

/// Fold the first `k` corners of box `b`, mapped through `world`.
pub open spec fn spec_fold_corners(
    world: AffineI,
    b: crate::vec3::AabbI,
    k: int,
    acc: Option<(V3i, V3i)>,
) -> Option<(V3i, V3i)>
    decreases k,
{
    if k <= 0 {
        acc
    } else {
        let j = k - 1;
        spec_fold_point(
            spec_fold_corners(world, b, j, acc),
            spec_affine_apply(world, spec_corner(b, j % 2 == 1, (j / 2) % 2 == 1, j / 4 == 1)),
        )
    }
}

/// The contribution of entity `e`: its transformed bounding-volume corners,
/// its world origin in the degraded no-volume mode, or nothing when it has
/// no geometry or is not rooted at one of `roots`.
pub open spec fn spec_entity_fold(
    s: SceneI,
    roots: Seq<int>,
    e: int,
    acc: Option<(V3i, V3i)>,
) -> Option<(V3i, V3i)> {
    if spec_alive(s, e) && spec_ent(s, e).mesh is Some && roots.contains(spec_root_of(s, e)) {
        let w = spec_world(s, e);
        match spec_ent(s, e).bounding {
            Some(b) => spec_fold_corners(w, b, 8, acc),
            None => spec_fold_point(acc, spec_affine_apply(w, V3i { x: 0, y: 0, z: 0 })),
        }
    } else {
        acc
    }
}

/// Bounds accumulated over the first `n` entity slots.
pub open spec fn spec_accumulate_upto(s: SceneI, roots: Seq<int>, n: int) -> Option<(V3i, V3i)>
    decreases n,
{
    if n <= 0 {
        None
    } else {
        spec_entity_fold(s, roots, n - 1, spec_accumulate_upto(s, roots, n - 1))
    }
}

/// Bounds of everything rooted at one of `roots`; `None` when no entity
/// contributed geometry.
pub open spec fn spec_accumulate(s: SceneI, roots: Seq<int>) -> Option<(V3i, V3i)> {
    spec_accumulate_upto(s, roots, s.len() as int)
}

/// Both corners of a running bound are representable.
pub open spec fn acc_in_range(acc: Option<(V3i, V3i)>) -> bool {
    match acc {
        None => true,
        Some((mn, mx)) => v3_in_range(mn) && v3_in_range(mx),
    }
}

/// View of a running exec bound.
pub open spec fn acc_view(acc: Option<(V3, V3)>) -> Option<(V3i, V3i)> {
    match acc {
        None => None,
        Some((mn, mx)) => Some((mn@, mx@)),
    }
}

/// The world transform of a live entity.
pub fn world_of(scene: &Scene, e: usize) -> (r: Affine)
    requires
        scene.wf(),
        spec_alive(scene@, e as int),
    ensures
        r@ == spec_world(scene@, e as int),
        r.wf(),
    decreases e,
{
    proof {
        assert(spec_ent_ok(scene@, e as int));
    }
    let local = scene.get_transform(e).to_affine();
    match scene.get_parent(e) {
        Some(p) => {
            let pw = world_of(scene, p);
            pw.compose(&local)
        },
        None => local,
    }
}

/// The topmost ancestor of a live entity.
pub fn root_of(scene: &Scene, e: usize) -> (r: usize)
    requires
        scene.wf(),
        spec_alive(scene@, e as int),
    ensures
        r as int == spec_root_of(scene@, e as int),
    decreases e,
{
    proof {
        assert(spec_ent_ok(scene@, e as int));
    }
    match scene.get_parent(e) {
        Some(p) => root_of(scene, p),
        None => e,
    }
}

fn roots_contain(roots: &Vec<usize>, x: usize) -> (r: bool)
    ensures
        r == roots@.map_values(|u: usize| u as int).contains(x as int),
{
    let ghost ri = roots@.map_values(|u: usize| u as int);
    let n = roots.len();
    let mut i: usize = 0;
    while i < n
        invariant
            n == roots@.len(),
            ri == roots@.map_values(|u: usize| u as int),
            i <= n,
            forall|j: int| 0 <= j < i ==> ri[j] != x as int,
        decreases n - i,
    {
        if roots[i] == x {
            proof {
                assert(ri[i as int] == x as int);
            }
            return true;
        }
        i = i + 1;
    }
    proof {
        assert(!ri.contains(x as int));
    }
    false
}

fn fold_point(acc: Option<(V3, V3)>, p: V3) -> (r: Option<(V3, V3)>)
    ensures
        acc_view(r) == spec_fold_point(acc_view(acc), p@),
{
    match acc {
        None => Some((p, p)),
        Some((mn, mx)) => Some((mn.min2(&p), mx.max2(&p))),
    }
}

/// Accumulate the world-space bounds of everything rooted at `roots`.
/// Returns the extreme corners, or `None` when no entity contributed.
pub fn accumulate(scene: &Scene, roots: &Vec<usize>) -> (r: Option<(V3, V3)>)
    requires
        scene.wf(),
    ensures
        acc_view(r) == spec_accumulate(scene@, roots@.map_values(|u: usize| u as int)),
        acc_in_range(acc_view(r)),
{
    let ghost ri = roots@.map_values(|u: usize| u as int);
    let n = scene.len();
    let mut acc: Option<(V3, V3)> = None;
    let mut e: usize = 0;
    while e < n
        invariant
            scene.wf(),
            n == scene@.len(),
            ri == roots@.map_values(|u: usize| u as int),
            e <= n,
            acc_view(acc) == spec_accumulate_upto(scene@, ri, e as int),
            acc_in_range(acc_view(acc)),
        decreases n - e,
    {
        let ghost acc_entry = acc_view(acc);
        if scene.alive(e) && scene.has_mesh(e) && roots_contain(roots, root_of(scene, e)) {
            proof {
                assert(spec_ent_ok(scene@, e as int));
            }
            let w = world_of(scene, e);
            match scene.get_bounding(e) {
                Some(b) => {
                    let mut k: usize = 0;
                    while k < 8
                        invariant
                            k <= 8,
                            w.wf(),
                            b.wf(),
                            acc_view(acc) == spec_fold_corners(w@, b@, k as int, acc_entry),
                            acc_in_range(acc_view(acc)),
                        decreases 8 - k,
                    {
                        let c = b.corner(k);
                        let p = w.apply(&c);
                        acc = fold_point(acc, p);
                        k = k + 1;
                    }
                },
                None => {
                    let p = w.apply(&V3::zero());
                    acc = fold_point(acc, p);
                },
            }
        }
        proof {
            assert(acc_view(acc) == spec_entity_fold(scene@, ri, e as int, acc_entry));
        }
        e = e + 1;
    }
    acc
}

} // verus!
