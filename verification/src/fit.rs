//! Scene fitting: normalize a loaded model into the canonical view volume
//! and reset the camera to its canonical pose.
//!
//! From the accumulated bounds the fitter derives the center and the scale
//! `2 / max_dimension` (the canonical view volume is a two-unit cube), then
//! rescales every root entity's translation and scale, leaving rotations
//! untouched.  Missing or degenerate bounds leave scene and camera as they
//! are.

use vstd::prelude::*;

use crate::bounds::spec_accumulate;
use crate::fixed::{fx_in_range, fx_max, fx_mul, fx_sub, fx_div, spec_fx_div, spec_max, FX_ONE};
use crate::scene::{spec_alive, spec_ent, EntI, Scene, SceneI};
use crate::transform::{Transform, TransformI};
use crate::vec3::{spec_v3_mid, spec_v3_scale, spec_v3_sub, v3_in_range, V3, V3i};

verus! {

/// Canonical camera orbit radius (five world units).
pub const CAMERA_RADIUS: i64 = 5000;

/// Canonical camera pitch (0.3 radians).
pub const CAMERA_PITCH: i64 = 300;

/// The pan-orbit camera's target pose: focus point, orbit radius, yaw and
/// pitch.  Smoothing toward the target is an external concern.
#[derive(Clone, Copy, Debug)]
pub struct PanOrbitCamera {
    pub target_focus: V3,
    pub target_radius: i64,
    pub target_yaw: i64,
    pub target_pitch: i64,
}

/// Mathematical image of a camera pose.
pub struct CameraI {
    pub target_focus: V3i,
    pub target_radius: int,
    pub target_yaw: int,
    pub target_pitch: int,
}

impl View for PanOrbitCamera {
    type V = CameraI;

    open spec fn view(&self) -> CameraI {
        CameraI {
            target_focus: self.target_focus@,
            target_radius: self.target_radius as int,
            target_yaw: self.target_yaw as int,
            target_pitch: self.target_pitch as int,
        }
    }
}

/// The canonical pose: focus at the origin, radius five, yaw zero,
/// pitch 0.3 radians.
pub open spec fn spec_canonical_pose() -> CameraI {
    CameraI {
        target_focus: V3i { x: 0, y: 0, z: 0 },
        target_radius: CAMERA_RADIUS as int,
        target_yaw: 0,
        target_pitch: CAMERA_PITCH as int,
    }
}

impl PanOrbitCamera {
    /// The camera pose a fresh session starts from.
    pub fn canonical() -> (r: PanOrbitCamera)
        ensures
            r@ == spec_canonical_pose(),
    {
        PanOrbitCamera {
            target_focus: V3::zero(),
            target_radius: CAMERA_RADIUS,
            target_yaw: 0,
            target_pitch: CAMERA_PITCH,
        }
    }

    /// Reset the target pose to the canonical pose.
    pub fn reset(&mut self)
        ensures
            final(self)@ == spec_canonical_pose(),
    {
        self.target_focus = V3::zero();
        self.target_radius = CAMERA_RADIUS;
        self.target_yaw = 0;
        self.target_pitch = CAMERA_PITCH;
    }
}

/// What a fit attempt did.
#[derive(Clone, Copy, Debug, PartialEq, Eq, Structural)]
pub enum FitOutcome {
    /// Bounds were found; the roots were normalized and the camera reset.
    Fitted,
    /// No entity contributed geometry; nothing changed.
    NoBounds,
    /// The bounds have no positive extent; nothing changed.
    Degenerate,
}

/// One root rescaled about `center` by `scale`: the translation moves to
/// `(old − center) × scale`, the scale is multiplied by `scale`, the
/// rotation is kept and the transform is marked dirty.
pub open spec fn spec_fit_root(s: SceneI, r: int, center: V3i, scale: int) -> SceneI {
    if spec_alive(s, r) {
        let d = spec_ent(s, r);
        s.update(
            r,
            Some(
                EntI {
                    transform: TransformI {
                        translation: spec_v3_scale(
                            spec_v3_sub(d.transform.translation, center),
                            scale,
                        ),
                        rotation: d.transform.rotation,
                        scale: spec_v3_scale(d.transform.scale, scale),
                    },
                    dirty: true,
                    ..d
                },
            ),
        )
    } else {
        s
    }
}

/// Every root in `roots` rescaled in order.
pub open spec fn spec_fit_roots(s: SceneI, roots: Seq<int>, center: V3i, scale: int) -> SceneI
    decreases roots.len(),
{
    if roots.len() == 0 {
        s
    } else {
        spec_fit_root(
            spec_fit_roots(s, roots.drop_last(), center, scale),
            roots.last(),
            center,
            scale,
        )
    }
}

/// Fitting only rescales live roots: it never creates or destroys an
/// entity.
pub proof fn lemma_fit_preserves_alive(s: SceneI, roots: Seq<int>, center: V3i, scale: int, e: int)
    ensures
        spec_alive(spec_fit_roots(s, roots, center, scale), e) == spec_alive(s, e),
        spec_fit_roots(s, roots, center, scale).len() == s.len(),
    decreases roots.len(),
{
    if roots.len() > 0 {
        lemma_fit_preserves_alive(s, roots.drop_last(), center, scale, e);
        let prev = spec_fit_roots(s, roots.drop_last(), center, scale);
        lemma_fit_preserves_alive(s, roots.drop_last(), center, scale, roots.last());
    }
}

/// The extent of bounds and the largest of its three components.
pub open spec fn spec_max_dimension(mn: V3i, mx: V3i) -> int {
    let ext = spec_v3_sub(mx, mn);
    spec_max(ext.x, spec_max(ext.y, ext.z))
}

/// The normalizing scale for a positive maximal extent: two world units
/// divided by the extent.
pub open spec fn spec_fit_scale(max_dimension: int) -> int {
    spec_fx_div(2 * FX_ONE as int, max_dimension)
}

/// Normalize the model rooted at `roots` from its accumulated `bounds`,
/// and reset the camera on success.  Missing bounds or a non-positive
/// maximal extent change nothing.
pub fn fit(
    scene: &mut Scene,
    roots: &Vec<usize>,
    camera: &mut PanOrbitCamera,
    bounds: Option<(V3, V3)>,
) -> (r: FitOutcome)
    requires
        old(scene).wf(),
        match bounds {
            Some((mn, mx)) => mn.wf() && mx.wf(),
            None => true,
        },
    ensures
        final(scene).wf(),
        match bounds {
            None => r == FitOutcome::NoBounds && final(scene)@ == old(scene)@ && final(camera)@
                == old(camera)@,
            Some((mn, mx)) => {
                let maxdim = spec_max_dimension(mn@, mx@);
                if maxdim <= 0 {
                    r == FitOutcome::Degenerate && final(scene)@ == old(scene)@ && final(camera)@
                        == old(camera)@
                } else {
                    r == FitOutcome::Fitted && final(scene)@ == spec_fit_roots(
                        old(scene)@,
                        roots@.map_values(|u: usize| u as int),
                        spec_v3_mid(mn@, mx@),
                        spec_fit_scale(maxdim),
                    ) && final(camera)@ == spec_canonical_pose()
                }
            },
        },
{
    let (mn, mx) = match bounds {
        None => {
            return FitOutcome::NoBounds;
        },
        Some(pair) => pair,
    };
    let ext = mx.sub(&mn);
    let max_dimension = fx_max(ext.x, fx_max(ext.y, ext.z));
    if max_dimension <= 0 {
        return FitOutcome::Degenerate;
    }
    let center = mn.mid(&mx);
    let scale = fx_div(2 * FX_ONE, max_dimension);
    let ghost ri = roots@.map_values(|u: usize| u as int);
    let ghost s0 = scene@;
    let n = roots.len();
    let mut i: usize = 0;
    while i < n
        invariant
            scene.wf(),
            n == roots@.len(),
            ri == roots@.map_values(|u: usize| u as int),
            i <= n,
            center.wf(),
            fx_in_range(scale as int),
            scene@ == spec_fit_roots(s0, ri.take(i as int), center@, scale as int),
        decreases n - i,
    {
        let e = roots[i];
        if scene.alive(e) {
            let t = scene.get_transform(e);
            proof {
                assert(crate::scene::spec_ent_ok(scene@, e as int));
            }
            let new_t = Transform {
                translation: t.translation.sub(&center).scale(scale),
                rotation: t.rotation,
                scale: t.scale.scale(scale),
            };
            let ghost before = scene@;
            scene.set_transform(e, new_t);
            scene.mark_transform_dirty(e);
            proof {
                assert(scene@ =~= spec_fit_root(before, e as int, center@, scale as int));
            }
        }
        proof {
            assert(ri.take(i + 1).drop_last() =~= ri.take(i as int));
            assert(ri.take(i + 1).last() == ri[i as int]);
        }
        i = i + 1;
    }
    proof {
        assert(ri.take(n as int) =~= ri);
    }
    camera.reset();
    FitOutcome::Fitted
}

/// Accumulate bounds for the given roots, then fit and reset the camera:
/// the explicit center-and-fit step run after a model is composed.
pub fn center_and_fit(scene: &mut Scene, roots: &Vec<usize>, camera: &mut PanOrbitCamera) -> (r:
    FitOutcome)
    requires
        old(scene).wf(),
    ensures
        final(scene).wf(),
        ({
            let b = spec_accumulate(old(scene)@, roots@.map_values(|u: usize| u as int));
            match b {
                None => r == FitOutcome::NoBounds && final(scene)@ == old(scene)@ && final(camera)@
                    == old(camera)@,
                Some((mn, mx)) => {
                    let maxdim = spec_max_dimension(mn, mx);
                    if maxdim <= 0 {
                        r == FitOutcome::Degenerate && final(scene)@ == old(scene)@
                            && final(camera)@ == old(camera)@
                    } else {
                        r == FitOutcome::Fitted && final(scene)@ == spec_fit_roots(
                            old(scene)@,
                            roots@.map_values(|u: usize| u as int),
                            spec_v3_mid(mn, mx),
                            spec_fit_scale(maxdim),
                        ) && final(camera)@ == spec_canonical_pose()
                    }
                },
            }
        }),
{
    let bounds = crate::bounds::accumulate(scene, roots);
    fit(scene, roots, camera, bounds)
}

} // verus!
