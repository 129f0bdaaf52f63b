//! The entity store: spawn, recursive destroy, transforms, geometry and
//! animation players.
//!
//! Entities are slots in a vector; a destroyed entity leaves an empty slot,
//! so identifiers are never reused.  Every entity spawned as a child refers
//! to an earlier slot as its parent, which keeps the hierarchy acyclic and
//! gives every traversal an obvious termination measure.

use vstd::prelude::*;

use crate::anim::{player_ok, AnimationPlayer, PlayerI};
use crate::transform::{transform_in_range, Transform, TransformI};
use crate::vec3::{aabb_in_range, Aabb, AabbI};

verus! {

/// Mathematical image of one live entity.
pub struct EntI {
    pub parent: Option<int>,
    pub transform: TransformI,
    pub mesh: Option<Seq<char>>,
    pub bounding: Option<AabbI>,
    pub player: Option<PlayerI>,
    pub dirty: bool,
}

/// One live entity's components.
#[derive(Debug)]
pub struct EntityData {
    pub parent: Option<usize>,
    pub transform: Transform,
    pub mesh: Option<String>,
    pub bounding: Option<Aabb>,
    pub player: Option<AnimationPlayer>,
    pub dirty: bool,
}

impl View for EntityData {
    type V = EntI;

    open spec fn view(&self) -> EntI {
        EntI {
            parent: match self.parent {
                Some(p) => Some(p as int),
                None => None,
            },
            transform: self.transform@,
            mesh: match self.mesh {
                Some(ref n) => Some(n@),
                None => None,
            },
            bounding: match self.bounding {
                Some(b) => Some(b@),
                None => None,
            },
            player: match self.player {
                Some(ref p) => Some(p@),
                None => None,
            },
            dirty: self.dirty,
        }
    }
}

/// Mathematical image of the store: one slot per identifier ever issued.
pub type SceneI = Seq<Option<EntI>>;

/// The slot `e` holds a live entity.
pub open spec fn spec_alive(s: SceneI, e: int) -> bool {
    0 <= e < s.len() && s[e] is Some
}

/// The components of the live entity in slot `e`.
pub open spec fn spec_ent(s: SceneI, e: int) -> EntI {
    s[e]->0
}

/// A live entity's parent link points at an earlier live slot, and all of
/// its components are representable.
pub open spec fn spec_ent_ok(s: SceneI, e: int) -> bool {
    let d = spec_ent(s, e);
    &&& match d.parent {
        Some(p) => 0 <= p < e && spec_alive(s, p),
        None => true,
    }
    &&& transform_in_range(d.transform)
    &&& match d.bounding {
        Some(b) => aabb_in_range(b),
        None => true,
    }
    &&& match d.player {
        Some(p) => player_ok(p),
        None => true,
    }
}

/// The whole store is well formed.
pub open spec fn scene_ok(s: SceneI) -> bool {
    forall|e: int| spec_alive(s, e) ==> #[trigger] spec_ent_ok(s, e)
}

/// `e` lies in the subtree rooted at `r`: it is `r` itself, or its parent
/// chain passes through `r`.
pub open spec fn spec_under(s: SceneI, e: int, r: int) -> bool
    decreases e,
{
    if e == r {
        true
    } else if spec_alive(s, e) {
        match spec_ent(s, e).parent {
            Some(p) => {
                if 0 <= p < e {
                    spec_under(s, p, r)
                } else {
                    false
                }
            },
            None => false,
        }
    } else {
        false
    }
}

/// Nothing below slot `r` can lie in the subtree rooted at `r`,
/// because parent links only point backward.
pub proof fn lemma_under_needs_ge(s: SceneI, e: int, r: int)
    requires
        e < r,
    ensures
        !spec_under(s, e, r),
    decreases e,
{
    if e != r && spec_alive(s, e) {
        match spec_ent(s, e).parent {
            Some(p) => {
                if 0 <= p < e {
                    lemma_under_needs_ge(s, p, r);
                }
            },
            None => {},
        }
    }
}

/// The store after destroying the subtree rooted at `root`: every slot in
/// that subtree becomes empty, every other slot is untouched.
pub open spec fn spec_despawn(s: SceneI, root: int) -> SceneI {
    Seq::new(
        s.len(),
        |e: int|
            if spec_under(s, e, root) {
                None
            } else {
                s[e]
            },
    )
}

/// Destroying one subtree cannot revive anything, and a survivor keeps
/// its place in every other subtree.
pub proof fn lemma_despawn_preserves_under(s: SceneI, q: int, e: int, r: int)
    requires
        spec_under(s, e, r),
        !spec_under(s, e, q),
    ensures
        spec_under(spec_despawn(s, q), e, r),
    decreases e,
{
    if e != r {
        match spec_ent(s, e).parent {
            Some(p) => {
                if 0 <= p < e {
                    if spec_under(s, p, q) {
                        assert(spec_under(s, e, q));
                    }
                    lemma_despawn_preserves_under(s, q, p, r);
                }
            },
            None => {},
        }
    }
}

/// The entity store.
#[derive(Debug)]
pub struct Scene {
    pub slots: Vec<Option<EntityData>>,
}

impl View for Scene {
    type V = SceneI;

    open spec fn view(&self) -> SceneI {
        self.slots@.map_values(
            |s: Option<EntityData>|
                match s {
                    Some(d) => Some(d@),
                    None => None,
                },
        )
    }
}

impl Scene {
    pub open spec fn wf(&self) -> bool {
        scene_ok(self@)
    }

    pub fn new() -> (r: Scene)
        ensures
            r@ =~= Seq::<Option<EntI>>::empty(),
            r.wf(),
    {
        Scene { slots: Vec::new() }
    }

    /// Number of slots ever issued (live or destroyed).
    pub fn len(&self) -> (n: usize)
        ensures
            n == self@.len(),
    {
        self.slots.len()
    }

    pub fn alive(&self, e: usize) -> (r: bool)
        ensures
            r == spec_alive(self@, e as int),
    {
        e < self.slots.len() && self.slots[e].is_some()
    }

    /// Spawn a new entity; its identifier is the next unused slot.
    pub fn spawn(
        &mut self,
        parent: Option<usize>,
        transform: Transform,
        mesh: Option<String>,
        bounding: Option<Aabb>,
        player: Option<AnimationPlayer>,
    ) -> (id: usize)
        requires
            old(self).wf(),
            match parent {
                Some(p) => spec_alive(old(self)@, p as int),
                None => true,
            },
            transform.wf(),
            match bounding {
                Some(b) => b.wf(),
                None => true,
            },
            match player {
                Some(ref p) => p.wf(),
                None => true,
            },
        ensures
            id as int == old(self)@.len(),
            final(self)@ =~= old(self)@.push(
                Some(
                    EntI {
                        parent: match parent {
                            Some(p) => Some(p as int),
                            None => None,
                        },
                        transform: transform@,
                        mesh: match mesh {
                            Some(ref n) => Some(n@),
                            None => None,
                        },
                        bounding: match bounding {
                            Some(b) => Some(b@),
                            None => None,
                        },
                        player: match player {
                            Some(ref p) => Some(p@),
                            None => None,
                        },
                        dirty: false,
                    },
                ),
            ),
            final(self).wf(),
    {
        let id = self.slots.len();
        let data = EntityData { parent, transform, mesh, bounding, player, dirty: false };
        self.slots.push(Some(data));
        proof {
            let sv = self@;
            let ov = old(self)@;
            assert forall|e: int| spec_alive(sv, e) implies #[trigger] spec_ent_ok(sv, e) by {
                if e < id as int {
                    assert(spec_ent_ok(ov, e));
                    assert(spec_ent(sv, e) == spec_ent(ov, e));
                }
            }
        }
        id
    }

    /// Destroy the entity in slot `root` and every entity beneath it.
    pub fn despawn_recursive(&mut self, root: usize)
        requires
            old(self).wf(),
        ensures
            final(self)@.len() == old(self)@.len(),
            forall|e: int|
                #![trigger final(self)@[e]]
                0 <= e < old(self)@.len() ==> final(self)@[e] == (
                if spec_under(old(self)@, e, root as int) {
                    None::<EntI>
                } else {
                    old(self)@[e]
                }),
            final(self)@ =~= spec_despawn(old(self)@, root as int),
            final(self).wf(),
    {
        let ghost ov = self@;
        let n = self.slots.len();
        if root >= n {
            proof {
                assert forall|e: int| 0 <= e < ov.len() implies !spec_under(
                    ov,
                    e,
                    root as int,
                ) by {
                    lemma_under_needs_ge(ov, e, root as int);
                }
            }
            return ;
        }
        let mut doomed: Vec<bool> = Vec::new();
        let mut i: usize = 0;
        while i < n
            invariant
                scene_ok(ov),
                n == ov.len(),
                self@ == ov,
                doomed@.len() == i as int,
                i <= n,
                forall|j: int| 0 <= j < i ==> doomed@[j] == spec_under(ov, j, root as int),
            decreases n - i,
        {
            let is_doomed: bool = if i == root {
                true
            } else if i < root {
                proof {
                    lemma_under_needs_ge(ov, i as int, root as int);
                }
                false
            } else {
                match &self.slots[i] {
                    Some(d) => {
                        match d.parent {
                            Some(p) => {
                                proof {
                                    assert(ov[i as int] is Some);
                                    assert(spec_alive(ov, i as int));
                                    assert(spec_ent_ok(ov, i as int));
                                    assert(spec_ent(ov, i as int).parent == Some(p as int));
                                }
                                doomed[p]
                            },
                            None => false,
                        }
                    },
                    None => false,
                }
            };
            doomed.push(is_doomed);
            i = i + 1;
        }
        let mut k: usize = 0;
        while k < n
            invariant
                n == ov.len(),
                self@.len() == ov.len(),
                doomed@.len() == n as int,
                k <= n,
                forall|j: int| 0 <= j < n ==> doomed@[j] == spec_under(ov, j, root as int),
                forall|j: int|
                    #![trigger self@[j]]
                    0 <= j < n ==> self@[j] == (
                    if j < k && spec_under(ov, j, root as int) {
                        None::<EntI>
                    } else {
                        ov[j]
                    }),
            decreases n - k,
        {
            let ghost prev = self@;
            if doomed[k] {
                self.slots.set(k, None);
                proof {
                    assert forall|j: int| 0 <= j < n implies self@[j] == (
                    if j == k as int {
                        None::<EntI>
                    } else {
                        prev[j]
                    }) by {}
                }
            }
            k = k + 1;
        }
        proof {
            let sv = self@;
            assert forall|e: int| spec_alive(sv, e) implies #[trigger] spec_ent_ok(sv, e) by {
                assert(sv[e] == ov[e]);
                assert(spec_alive(ov, e));
                assert(spec_ent_ok(ov, e));
                assert(spec_ent(sv, e) == spec_ent(ov, e));
                match spec_ent(ov, e).parent {
                    Some(p) => {
                        // the parent survives too: were it doomed, `e` would be doomed
                        assert(!spec_under(ov, e, root as int));
                        assert(spec_alive(sv, p));
                    },
                    None => {},
                }
            }
        }
    }

    pub fn get_parent(&self, e: usize) -> (r: Option<usize>)
        requires
            spec_alive(self@, e as int),
        ensures
            match r {
                Some(p) => spec_ent(self@, e as int).parent == Some(p as int),
                None => spec_ent(self@, e as int).parent is None,
            },
    {
        match &self.slots[e] {
            Some(d) => d.parent,
            None => None,
        }
    }

    pub fn get_transform(&self, e: usize) -> (r: Transform)
        requires
            spec_alive(self@, e as int),
        ensures
            r@ == spec_ent(self@, e as int).transform,
    {
        match &self.slots[e] {
            Some(d) => d.transform,
            None => Transform::identity(),
        }
    }

    /// Replace the local transform, leaving the dirty flag as it was.
    pub fn set_transform(&mut self, e: usize, t: Transform)
        requires
            old(self).wf(),
            spec_alive(old(self)@, e as int),
            t.wf(),
        ensures
            final(self)@ =~= old(self)@.update(
                e as int,
                Some(EntI { transform: t@, ..spec_ent(old(self)@, e as int) }),
            ),
            final(self).wf(),
    {
        let slot = &mut self.slots[e];
        match slot {
            Some(d) => {
                d.transform = t;
            },
            None => {},
        }
        proof {
            let sv = self@;
            let ov = old(self)@;
            assert forall|x: int| spec_alive(sv, x) implies #[trigger] spec_ent_ok(sv, x) by {
                assert(spec_ent_ok(ov, x));
                if x != e as int {
                    assert(spec_ent(sv, x) == spec_ent(ov, x));
                }
            }
        }
    }

    /// Record that downstream systems must recompute this entity's world matrix.
    pub fn mark_transform_dirty(&mut self, e: usize)
        requires
            old(self).wf(),
            spec_alive(old(self)@, e as int),
        ensures
            final(self)@ =~= old(self)@.update(
                e as int,
                Some(EntI { dirty: true, ..spec_ent(old(self)@, e as int) }),
            ),
            final(self).wf(),
    {
        let slot = &mut self.slots[e];
        match slot {
            Some(d) => {
                d.dirty = true;
            },
            None => {},
        }
        proof {
            let sv = self@;
            let ov = old(self)@;
            assert forall|x: int| spec_alive(sv, x) implies #[trigger] spec_ent_ok(sv, x) by {
                assert(spec_ent_ok(ov, x));
                if x != e as int {
                    assert(spec_ent(sv, x) == spec_ent(ov, x));
                }
            }
        }
    }

    pub fn has_mesh(&self, e: usize) -> (r: bool)
        requires
            spec_alive(self@, e as int),
        ensures
            r == (spec_ent(self@, e as int).mesh is Some),
    {
        match &self.slots[e] {
            Some(d) => d.mesh.is_some(),
            None => false,
        }
    }

    pub fn get_bounding(&self, e: usize) -> (r: Option<Aabb>)
        requires
            spec_alive(self@, e as int),
        ensures
            match r {
                Some(b) => spec_ent(self@, e as int).bounding == Some(b@),
                None => spec_ent(self@, e as int).bounding is None,
            },
    {
        match &self.slots[e] {
            Some(d) => d.bounding,
            None => None,
        }
    }

    pub fn has_player(&self, e: usize) -> (r: bool)
        requires
            spec_alive(self@, e as int),
        ensures
            r == (spec_ent(self@, e as int).player is Some),
    {
        match &self.slots[e] {
            Some(d) => d.player.is_some(),
            None => false,
        }
    }

    /// Take the animation player out of slot `e`, leaving none behind.
    /// The caller operates on it and hands it back with `restore_player`.
    pub fn take_player(&mut self, e: usize) -> (r: Option<AnimationPlayer>)
        requires
            old(self).wf(),
            spec_alive(old(self)@, e as int),
        ensures
            match r {
                Some(ref p) => spec_ent(old(self)@, e as int).player == Some(p@) && p.wf(),
                None => spec_ent(old(self)@, e as int).player is None,
            },
            final(self)@ =~= old(self)@.update(
                e as int,
                Some(EntI { player: None, ..spec_ent(old(self)@, e as int) }),
            ),
            final(self).wf(),
    {
        let slot = &mut self.slots[e];
        let r = match slot {
            Some(d) => d.player.take(),
            None => None,
        };
        proof {
            let sv = self@;
            let ov = old(self)@;
            assert(spec_ent_ok(ov, e as int));
            assert forall|x: int| spec_alive(sv, x) implies #[trigger] spec_ent_ok(sv, x) by {
                assert(spec_ent_ok(ov, x));
                if x != e as int {
                    assert(spec_ent(sv, x) == spec_ent(ov, x));
                }
            }
        }
        r
    }

    /// Put an animation player (back) into slot `e`.
    pub fn restore_player(&mut self, e: usize, player: AnimationPlayer)
        requires
            old(self).wf(),
            spec_alive(old(self)@, e as int),
            player.wf(),
        ensures
            final(self)@ =~= old(self)@.update(
                e as int,
                Some(EntI { player: Some(player@), ..spec_ent(old(self)@, e as int) }),
            ),
            final(self).wf(),
    {
        let slot = &mut self.slots[e];
        match slot {
            Some(d) => {
                d.player = Some(player);
            },
            None => {},
        }
        proof {
            let sv = self@;
            let ov = old(self)@;
            assert forall|x: int| spec_alive(sv, x) implies #[trigger] spec_ent_ok(sv, x) by {
                assert(spec_ent_ok(ov, x));
                if x != e as int {
                    assert(spec_ent(sv, x) == spec_ent(ov, x));
                }
            }
        }
    }
}

} // verus!
