//! The viewer session: scene composition, asset replacement and the
//! per-session state the viewer tracks between frames.
//!
//! A session owns the identifiers of the current model's root entities,
//! the skybox catalog, the camera pose, the mesh cache and the texture
//! command queue.  The replacement coordinator guarantees at most one
//! live model at a time: loading a new model destroys every entity of
//! the previous one before the new subtrees are spawned.

use vstd::prelude::*;

use crate::anim::{AnimationPlayer, Clip, ClipI, PlayerI};
use crate::assets::AssetLibrary;
use crate::cache::spec_assoc_map;
use crate::catalog::{Atmosphere, SkyboxCatalog};
use crate::fit::{FitOutcome, PanOrbitCamera};
use crate::fixed::FX_ONE;
use crate::import::{
    import_ok, spec_cache_after, spec_has_meshes, ImportI, ImportResult, MeshCache, MeshI, NodeI,
    TextureData, TextureI,
};
use crate::scene::{spec_alive, spec_despawn, spec_under, EntI, Scene, SceneI};

verus! {

/// The identity of the image behind the active environment map: the
/// built-in sky, a file, or transient bytes known only by name.
#[derive(Debug)]
pub enum EnvSource {
    BuiltIn,
    Path(String),
    Bytes(String),
}

/// Mathematical image of an environment source.
pub enum EnvSourceI {
    BuiltIn,
    Path(Seq<char>),
    Bytes(Seq<char>),
}

impl View for EnvSource {
    type V = EnvSourceI;

    open spec fn view(&self) -> EnvSourceI {
        match self {
            EnvSource::BuiltIn => EnvSourceI::BuiltIn,
            EnvSource::Path(p) => EnvSourceI::Path(p@),
            EnvSource::Bytes(n) => EnvSourceI::Bytes(n@),
        }
    }
}

/// What kind of file is hovering over the window.
#[derive(Clone, Copy, Debug, PartialEq, Eq, Structural)]
pub enum HoverKind {
    Hdr,
    Gltf,
    Fbx,
    Unsupported,
}

/// All session-wide viewer state, created once at startup.
#[derive(Debug)]
pub struct ViewerSession {
    pub model_entities: Vec<usize>,
    pub loaded: bool,
    pub camera: PanOrbitCamera,
    pub atmosphere: Atmosphere,
    pub previous_atmosphere: Atmosphere,
    pub skyboxes: SkyboxCatalog,
    pub mesh_cache: MeshCache,
    pub texture_queue: Vec<(String, TextureData)>,
    pub active_env: EnvSource,
    pub drag_file_kind: Option<HoverKind>,
    pub left_arrow_was_pressed: bool,
    pub right_arrow_was_pressed: bool,
    pub up_arrow_was_pressed: bool,
    pub down_arrow_was_pressed: bool,
    pub asset_library: AssetLibrary,
}

/// The texture command queue as a sequence of name/payload pairs.
pub open spec fn spec_texture_queue(q: Seq<(String, TextureData)>) -> Seq<(Seq<char>, TextureI)> {
    q.map_values(|t: (String, TextureData)| (t.0@, t.1@))
}

/// The texture store the queue describes once every command has been
/// applied, later commands overwriting earlier ones.
pub open spec fn spec_texture_content(q: Seq<(Seq<char>, TextureI)>) -> Map<Seq<char>, TextureI> {
    spec_assoc_map(q)
}

/// The scene after destroying the subtrees of every root in order.
pub open spec fn spec_clear_scene(s: SceneI, roots: Seq<int>) -> SceneI
    decreases roots.len(),
{
    if roots.len() == 0 {
        s
    } else {
        spec_despawn(spec_clear_scene(s, roots.drop_last()), roots.last())
    }
}

/// The first mesh bound to `name`, starting the search at `i`.
pub open spec fn spec_mesh_find_from(
    meshes: Seq<(Seq<char>, MeshI)>,
    name: Seq<char>,
    i: int,
) -> Option<MeshI>
    decreases meshes.len() - i,
{
    if i < 0 || i >= meshes.len() {
        None
    } else if meshes[i].0 == name {
        Some(meshes[i].1)
    } else {
        spec_mesh_find_from(meshes, name, i + 1)
    }
}

/// The mesh an import binds to `name`, if any.
pub open spec fn spec_mesh_lookup(meshes: Seq<(Seq<char>, MeshI)>, name: Seq<char>) -> Option<
    MeshI,
> {
    spec_mesh_find_from(meshes, name, 0)
}

/// The player attached to a freshly spawned skinned root: the import's
/// clips, with the first clip selected and playing when any is present.
pub open spec fn spec_initial_player(clips: Seq<ClipI>) -> PlayerI {
    PlayerI {
        clips,
        current_clip: if clips.len() > 0 {
            Some(0int)
        } else {
            None
        },
        time: 0,
        speed: FX_ONE as int,
        looping: true,
        playing: clips.len() > 0,
    }
}

/// The player a composed prefab root receives: only a model with
/// skinning data gets one.
pub open spec fn spec_root_player(imp: ImportI) -> Option<PlayerI> {
    if imp.skins.len() > 0 {
        Some(spec_initial_player(imp.animations))
    } else {
        None
    }
}

/// The entity spawned for one prefab node: its parent is mapped into the
/// scene by `base`, its mesh reference is resolved against the import's
/// meshes (an unresolved reference spawns the node without geometry),
/// and `player` is attached.
pub open spec fn spec_spawned_ent(
    n: NodeI,
    meshes: Seq<(Seq<char>, MeshI)>,
    base: int,
    player: Option<PlayerI>,
) -> EntI {
    EntI {
        parent: match n.parent {
            Some(q) => Some(base + q),
            None => None,
        },
        transform: n.transform,
        mesh: match n.mesh {
            Some(nm) => {
                if spec_mesh_lookup(meshes, nm) is Some {
                    Some(nm)
                } else {
                    None
                }
            },
            None => None,
        },
        bounding: match n.mesh {
            Some(nm) => {
                match spec_mesh_lookup(meshes, nm) {
                    Some(m) => m.bounding,
                    None => None,
                }
            },
            None => None,
        },
        player,
        dirty: false,
    }
}

/// Total node count of the first `k` prefabs.
pub open spec fn spec_nodes_before(prefabs: Seq<crate::import::PrefabI>, k: int) -> int
    decreases k,
{
    if k <= 0 {
        0
    } else {
        spec_nodes_before(prefabs, k - 1) + prefabs[k - 1].nodes.len()
    }
}

/// The scene after spawning nodes `j..` of one prefab, in order; `base`
/// is the slot of the prefab's root.
pub open spec fn spec_spawn_nodes(
    s: SceneI,
    nodes: Seq<NodeI>,
    meshes: Seq<(Seq<char>, MeshI)>,
    base: int,
    player: Option<PlayerI>,
    j: int,
) -> SceneI
    decreases nodes.len() - j,
{
    if j < 0 || j >= nodes.len() {
        s
    } else {
        spec_spawn_nodes(
            s.push(
                Some(
                    spec_spawned_ent(
                        nodes[j],
                        meshes,
                        base,
                        if j == 0 {
                            player
                        } else {
                            None
                        },
                    ),
                ),
            ),
            nodes,
            meshes,
            base,
            player,
            j + 1,
        )
    }
}

/// The scene after spawning the first `k` prefabs of an import.
pub open spec fn spec_compose_prefabs(s: SceneI, imp: ImportI, k: int) -> SceneI
    decreases k,
{
    if k <= 0 {
        s
    } else {
        let prev = spec_compose_prefabs(s, imp, k - 1);
        spec_spawn_nodes(
            prev,
            imp.prefabs[k - 1].nodes,
            imp.meshes,
            prev.len() as int,
            spec_root_player(imp),
            0,
        )
    }
}

/// The scene a composition leaves behind: every prefab's node hierarchy
/// appended in order, with resolved meshes and, for a skinned import, a
/// clip-loaded player on each root.
pub open spec fn spec_composed_scene(s: SceneI, imp: ImportI) -> SceneI {
    spec_compose_prefabs(s, imp, imp.prefabs.len() as int)
}

proof fn lemma_spawn_nodes_pointwise(
    s: SceneI,
    nodes: Seq<NodeI>,
    meshes: Seq<(Seq<char>, MeshI)>,
    base: int,
    player: Option<PlayerI>,
    j: int,
)
    requires
        0 <= j <= nodes.len(),
    ensures
        spec_spawn_nodes(s, nodes, meshes, base, player, j).len() == s.len() + nodes.len() - j,
        forall|e: int|
            0 <= e < s.len() ==> spec_spawn_nodes(s, nodes, meshes, base, player, j)[e] == s[e],
        forall|t: int|
            #![trigger nodes[j + t]]
            0 <= t < nodes.len() - j ==> spec_spawn_nodes(s, nodes, meshes, base, player, j)[
            s.len() + t] == Some(
                spec_spawned_ent(
                    nodes[j + t],
                    meshes,
                    base,
                    if j + t == 0 {
                        player
                    } else {
                        None
                    },
                ),
            ),
    decreases nodes.len() - j,
{
    if j < nodes.len() {
        let pushed = s.push(
            Some(
                spec_spawned_ent(
                    nodes[j],
                    meshes,
                    base,
                    if j == 0 {
                        player
                    } else {
                        None
                    },
                ),
            ),
        );
        lemma_spawn_nodes_pointwise(pushed, nodes, meshes, base, player, j + 1);
        let r = spec_spawn_nodes(s, nodes, meshes, base, player, j);
        assert(r == spec_spawn_nodes(pushed, nodes, meshes, base, player, j + 1));
        assert forall|e: int| 0 <= e < s.len() implies r[e] == s[e] by {
            assert(r[e] == pushed[e]);
            assert(pushed[e] == s[e]);
        }
        assert forall|t: int|
            #![trigger nodes[j + t]]
            0 <= t < nodes.len() - j implies r[s.len() + t] == Some(
            spec_spawned_ent(
                nodes[j + t],
                meshes,
                base,
                if j + t == 0 {
                    player
                } else {
                    None
                },
            ),
        ) by {
            if t == 0 {
                assert(r[s.len() + t] == pushed[s.len() as int]);
                assert(pushed[s.len() as int] == pushed.last());
            } else {
                assert(nodes[(j + 1) + (t - 1)] == nodes[j + t]);
                assert(r[pushed.len() + (t - 1)] == Some(
                    spec_spawned_ent(
                        nodes[(j + 1) + (t - 1)],
                        meshes,
                        base,
                        if (j + 1) + (t - 1) == 0 {
                            player
                        } else {
                            None
                        },
                    ),
                ));
                assert(s.len() + t == pushed.len() + (t - 1));
            }
        }
    }
}

proof fn lemma_compose_prefabs_pointwise(s: SceneI, imp: ImportI, k: int)
    requires
        0 <= k <= imp.prefabs.len(),
    ensures
        spec_compose_prefabs(s, imp, k).len() == s.len() + spec_nodes_before(imp.prefabs, k),
        forall|e: int| 0 <= e < s.len() ==> spec_compose_prefabs(s, imp, k)[e] == s[e],
        forall|k2: int, j: int|
            #![trigger imp.prefabs[k2].nodes[j]]
            0 <= k2 < k && 0 <= j < imp.prefabs[k2].nodes.len() ==> spec_compose_prefabs(
                s,
                imp,
                k,
            )[s.len() + spec_nodes_before(imp.prefabs, k2) + j] == Some(
                spec_spawned_ent(
                    imp.prefabs[k2].nodes[j],
                    imp.meshes,
                    s.len() + spec_nodes_before(imp.prefabs, k2),
                    if j == 0 {
                        spec_root_player(imp)
                    } else {
                        None
                    },
                ),
            ),
    decreases k,
{
    if k > 0 {
        lemma_compose_prefabs_pointwise(s, imp, k - 1);
        let prev = spec_compose_prefabs(s, imp, k - 1);
        let nodes = imp.prefabs[k - 1].nodes;
        lemma_nodes_before_nonneg(imp.prefabs, k - 1);
        lemma_spawn_nodes_pointwise(
            prev,
            nodes,
            imp.meshes,
            prev.len() as int,
            spec_root_player(imp),
            0,
        );
        let r = spec_compose_prefabs(s, imp, k);
        assert(r == spec_spawn_nodes(
            prev,
            nodes,
            imp.meshes,
            prev.len() as int,
            spec_root_player(imp),
            0,
        ));
        assert forall|k2: int, j: int|
            #![trigger imp.prefabs[k2].nodes[j]]
            0 <= k2 < k && 0 <= j < imp.prefabs[k2].nodes.len() implies r[s.len()
            + spec_nodes_before(imp.prefabs, k2) + j] == Some(
            spec_spawned_ent(
                imp.prefabs[k2].nodes[j],
                imp.meshes,
                s.len() + spec_nodes_before(imp.prefabs, k2),
                if j == 0 {
                    spec_root_player(imp)
                } else {
                    None
                },
            ),
        ) by {
            lemma_nodes_before_nonneg(imp.prefabs, k2);
            let idx = s.len() + spec_nodes_before(imp.prefabs, k2) + j;
            if k2 < k - 1 {
                lemma_nodes_before_mono(imp.prefabs, k2 + 1, k - 1);
                assert(idx < prev.len());
                assert(r[idx] == prev[idx]);
            } else {
                assert(nodes[0 + j] == imp.prefabs[k2].nodes[j]);
                assert(idx == prev.len() + j);
                assert(r[prev.len() + j] == Some(
                    spec_spawned_ent(
                        nodes[0 + j],
                        imp.meshes,
                        prev.len() as int,
                        if 0 + j == 0 {
                            spec_root_player(imp)
                        } else {
                            None
                        },
                    ),
                ));
            }
        }
    }
}

/// Every slot of the region a composition appends belongs to exactly one
/// prefab node: the witness pair of prefab index and node index.
proof fn lemma_offset_decompose(prefabs: Seq<crate::import::PrefabI>, off: int, k: int) -> (r: (
    int,
    int,
))
    requires
        0 <= k <= prefabs.len(),
        0 <= off < spec_nodes_before(prefabs, k),
    ensures
        0 <= r.0 < k,
        0 <= r.1 < prefabs[r.0].nodes.len(),
        off == spec_nodes_before(prefabs, r.0) + r.1,
    decreases k,
{
    lemma_nodes_before_nonneg(prefabs, k - 1);
    if off >= spec_nodes_before(prefabs, k - 1) {
        let k2 = k - 1;
        let j = off - spec_nodes_before(prefabs, k2);
        assert(spec_nodes_before(prefabs, k) == spec_nodes_before(prefabs, k2)
            + prefabs[k2].nodes.len());
        (k2, j)
    } else {
        lemma_offset_decompose(prefabs, off, k - 1)
    }
}

/// The mesh references of `nodes` that the import does not resolve,
/// in node order.
pub open spec fn spec_missing_in_nodes(
    nodes: Seq<NodeI>,
    meshes: Seq<(Seq<char>, MeshI)>,
) -> Seq<Seq<char>>
    decreases nodes.len(),
{
    if nodes.len() == 0 {
        Seq::empty()
    } else {
        spec_missing_in_nodes(nodes.drop_last(), meshes) + (match nodes.last().mesh {
            Some(nm) => {
                if spec_mesh_lookup(meshes, nm) is None {
                    seq![nm]
                } else {
                    Seq::empty()
                }
            },
            None => Seq::empty(),
        })
    }
}

/// The unresolved mesh references of the whole import, prefab by prefab.
pub open spec fn spec_missing_refs(imp: ImportI, k: int) -> Seq<Seq<char>>
    decreases k,
{
    if k <= 0 {
        Seq::empty()
    } else {
        spec_missing_refs(imp, k - 1) + spec_missing_in_nodes(imp.prefabs[k - 1].nodes, imp.meshes)
    }
}

impl ViewerSession {
    pub open spec fn wf(&self) -> bool {
        self.skyboxes.wf() && self.mesh_cache.wf()
    }

    /// A fresh session: nothing loaded, canonical camera, the built-in
    /// HDR sky active, empty catalogs and queues.
    pub fn new() -> (r: ViewerSession)
        ensures
            r.model_entities@.len() == 0,
            !r.loaded,
            r.camera@ == crate::fit::spec_canonical_pose(),
            r.atmosphere == Atmosphere::Hdr,
            r.previous_atmosphere == Atmosphere::Hdr,
            r.skyboxes@.entries.len() == 0,
            r.skyboxes@.selected is None,
            r.mesh_cache@.len() == 0,
            r.texture_queue@.len() == 0,
            r.active_env is BuiltIn,
            r.drag_file_kind is None,
            !r.left_arrow_was_pressed && !r.right_arrow_was_pressed && !r.up_arrow_was_pressed
                && !r.down_arrow_was_pressed,
            r.asset_library.entries@.len() == 0,
            r.asset_library.search_query@.len() == 0,
            r.asset_library.filter_type is None,
            r.asset_library.show_glb && r.asset_library.show_gltf && r.asset_library.show_fbx
                && r.asset_library.show_hdr,
            r.asset_library.sort_ascending,
            !r.asset_library.show_window,
            r.asset_library.selected_index is None,
            r.wf(),
    {
        ViewerSession {
            model_entities: Vec::new(),
            loaded: false,
            camera: PanOrbitCamera::canonical(),
            atmosphere: Atmosphere::Hdr,
            previous_atmosphere: Atmosphere::Hdr,
            skyboxes: SkyboxCatalog::new(),
            mesh_cache: MeshCache::new(),
            texture_queue: Vec::new(),
            active_env: EnvSource::BuiltIn,
            drag_file_kind: None,
            left_arrow_was_pressed: false,
            right_arrow_was_pressed: false,
            up_arrow_was_pressed: false,
            down_arrow_was_pressed: false,
            asset_library: AssetLibrary::default(),
        }
    }

    /// Destroy every entity of the current model, recursively, and leave
    /// the session with no model loaded.  Everything else is untouched.
    pub fn clear_scene(&mut self, scene: &mut Scene)
        requires
            old(self).wf(),
            old(scene).wf(),
        ensures
            final(scene)@ =~= spec_clear_scene(
                old(scene)@,
                old(self).model_entities@.map_values(|u: usize| u as int),
            ),
            final(scene)@.len() == old(scene)@.len(),
            final(scene).wf(),
            final(self).model_entities@.len() == 0,
            !final(self).loaded,
            final(self).camera == old(self).camera,
            final(self).atmosphere == old(self).atmosphere,
            final(self).previous_atmosphere == old(self).previous_atmosphere,
            final(self).skyboxes == old(self).skyboxes,
            final(self).mesh_cache == old(self).mesh_cache,
            final(self).texture_queue == old(self).texture_queue,
            final(self).active_env == old(self).active_env,
            final(self).drag_file_kind == old(self).drag_file_kind,
            final(self).asset_library == old(self).asset_library,
            final(self).wf(),
    {
        let ghost s0 = scene@;
        let ghost ri = self.model_entities@.map_values(|u: usize| u as int);
        let n = self.model_entities.len();
        let mut i: usize = 0;
        while i < n
            invariant
                ri == old(self).model_entities@.map_values(|u: usize| u as int),
                s0 == old(scene)@,
                self == old(self),
                n == self.model_entities@.len(),
                i <= n,
                scene.wf(),
                scene@.len() == s0.len(),
                scene@ =~= spec_clear_scene(s0, ri.take(i as int)),
            decreases n - i,
        {
            let r = self.model_entities[i];
            scene.despawn_recursive(r);
            proof {
                assert(ri.take(i + 1).drop_last() =~= ri.take(i as int));
                assert(ri.take(i + 1).last() == ri[i as int]);
                assert(ri[i as int] == self.model_entities@[i as int] as int);
            }
            i = i + 1;
        }
        proof {
            assert(ri.take(n as int) =~= ri);
        }
        self.model_entities.clear();
        self.loaded = false;
    }
}


/// Clone a clip list, preserving its image.
fn clone_clips(clips: &Vec<Clip>) -> (r: Vec<Clip>)
    ensures
        r@.map_values(|c: Clip| c@) == clips@.map_values(|c: Clip| c@),
{
    let n = clips.len();
    let mut out: Vec<Clip> = Vec::new();
    let mut i: usize = 0;
    while i < n
        invariant
            n == clips@.len(),
            i <= n,
            out@.map_values(|c: Clip| c@) =~= clips@.map_values(|c: Clip| c@).take(i as int),
        decreases n - i,
    {
        let name = clips[i].name.clone();
        let duration = clips[i].duration;
        let ghost cv = ClipI { name: name@, duration: duration as int };
        let ghost pre_out = out@;
        out.push(Clip { name, duration });
        proof {
            assert(pre_out.map_values(|c: Clip| c@).len() == pre_out.len());
            assert(out@ == pre_out.push(out@.last()));
            assert(out@.len() == i + 1);
            assert(out@.last()@ == cv);
            assert forall|j: int| 0 <= j <= i implies out@.map_values(|c: Clip| c@)[j] == out@[j]@
                by {}
            assert(cv == clips@[i as int]@);
            assert(clips@.map_values(|c: Clip| c@)[i as int] == clips@[i as int]@);
            assert(out@.map_values(|c: Clip| c@) =~= clips@.map_values(|c: Clip| c@).take(
                i + 1,
            ));
        }
        i = i + 1;
    }
    proof {
        assert(clips@.map_values(|c: Clip| c@).take(n as int) =~= clips@.map_values(
            |c: Clip| c@,
        ));
    }
    out
}

/// The animation player a skinned model's root receives: the import's
/// clips, auto-selecting and playing the first one when any is present.
fn build_root_player(import: &ImportResult) -> (r: Option<AnimationPlayer>)
    requires
        import_ok(import@),
    ensures
        match r {
            Some(ref p) => spec_root_player(import@) == Some(p@) && p.wf(),
            None => spec_root_player(import@) is None,
        },
{
    if import.skins.len() == 0 {
        return None;
    }
    let mut player = AnimationPlayer::new();
    let clips = clone_clips(&import.animations);
    proof {
        assert(forall|i: int|
            0 <= i < clips@.len() ==> crate::anim::clip_ok(
                (#[trigger] clips@[i])@,
            )) by {
            assert forall|i: int| 0 <= i < clips@.len() implies crate::anim::clip_ok(
                clips@[i]@,
            ) by {
                assert(clips@.map_values(|c: Clip| c@)[i] == clips@[i]@);
                assert(import@.animations[i] == clips@[i]@);
            }
        }
    }
    player.add_clips(clips);
    proof {
        assert(player@.clips =~= import@.animations);
        assert(player@ == spec_initial_player(import@.animations));
    }
    Some(player)
}


/// Every sum of leading node counts is non-negative.
proof fn lemma_nodes_before_nonneg(prefabs: Seq<crate::import::PrefabI>, k: int)
    ensures
        spec_nodes_before(prefabs, k) >= 0,
    decreases k,
{
    if k > 0 {
        lemma_nodes_before_nonneg(prefabs, k - 1);
    }
}

/// Leading node counts grow with the prefab index.
proof fn lemma_nodes_before_mono(prefabs: Seq<crate::import::PrefabI>, a: int, b: int)
    requires
        a <= b,
    ensures
        spec_nodes_before(prefabs, a) <= spec_nodes_before(prefabs, b),
    decreases b - a,
{
    if a < b {
        lemma_nodes_before_mono(prefabs, a, b - 1);
    }
}

/// A found mesh is one of the import's meshes, so it is well formed.
proof fn lemma_mesh_lookup_ok(meshes: Seq<(Seq<char>, MeshI)>, name: Seq<char>, i: int)
    requires
        forall|x: int| 0 <= x < meshes.len() ==> crate::import::mesh_ok((#[trigger] meshes[x]).1),
    ensures
        match spec_mesh_find_from(meshes, name, i) {
            Some(m) => crate::import::mesh_ok(m),
            None => true,
        },
    decreases meshes.len() - i,
{
    if 0 <= i < meshes.len() && meshes[i].0 != name {
        lemma_mesh_lookup_ok(meshes, name, i + 1);
    }
}

/// Resolve a node's mesh reference against the import's meshes: the
/// (cloned) name and the mesh's bounding volume on success.
fn mesh_find(meshes: &Vec<(String, crate::import::MeshData)>, name: &String) -> (r: Option<
    (String, Option<crate::vec3::Aabb>),
>)
    ensures
        ({
            let mv = meshes@.map_values(|m: (String, crate::import::MeshData)| (m.0@, m.1@));
            match spec_mesh_lookup(mv, name@) {
                None => r is None,
                Some(m) => match r {
                    Some((ref nm, bb)) => nm@ == name@ && (match bb {
                        Some(b) => m.bounding == Some(b@),
                        None => m.bounding is None,
                    }),
                    None => false,
                },
            }
        }),
{
    let ghost mv = meshes@.map_values(|m: (String, crate::import::MeshData)| (m.0@, m.1@));
    let n = meshes.len();
    let mut i: usize = 0;
    while i < n
        invariant
            mv == meshes@.map_values(|m: (String, crate::import::MeshData)| (m.0@, m.1@)),
            n == meshes@.len(),
            i <= n,
            spec_mesh_find_from(mv, name@, 0) == spec_mesh_find_from(mv, name@, i as int),
        decreases n - i,
    {
        proof {
            assert(mv[i as int] == (meshes@[i as int].0@, meshes@[i as int].1@));
        }
        if meshes[i].0 == *name {
            proof {
                assert(mv[i as int].0 == name@);
                assert(spec_mesh_find_from(mv, name@, i as int) == Some(mv[i as int].1));
            }
            return Some((name.clone(), meshes[i].1.bounding));
        }
        proof {
            assert(mv[i as int].0 != name@);
        }
        i = i + 1;
    }
    None
}

impl ViewerSession {
    /// Compose one import result into the scene: queue a load command for
    /// every texture, insert every mesh into the shared cache (overwriting
    /// by name), and spawn every prefab's node hierarchy in order,
    /// appending each spawned root to the session's model entities.  A
    /// skinned model's roots receive an animation player holding the
    /// import's clips.  Unresolved mesh references are skipped and
    /// returned, in order, for diagnosis.
    #[verifier::rlimit(100)]
    pub fn compose_import(&mut self, scene: &mut Scene, import: &ImportResult) -> (missing: Vec<
        String,
    >)
        requires
            old(self).wf(),
            old(scene).wf(),
            import_ok(import@),
        ensures
            final(self).wf(),
            final(scene).wf(),
            spec_texture_queue(final(self).texture_queue@) == spec_texture_queue(
                old(self).texture_queue@,
            ) + import@.textures,
            crate::import::spec_cache_content(final(self).mesh_cache@)
                =~= spec_cache_after(
                crate::import::spec_cache_content(old(self).mesh_cache@),
                import@,
            ),
            final(self).model_entities@.len() == old(self).model_entities@.len()
                + import@.prefabs.len(),
            forall|k: int|
                0 <= k < old(self).model_entities@.len() ==> final(self).model_entities@[k]
                    == old(self).model_entities@[k],
            forall|k: int|
                0 <= k < import@.prefabs.len()
                    ==> (#[trigger] final(self).model_entities@[old(self).model_entities@.len() + k]) as int
                    == old(scene)@.len() + spec_nodes_before(import@.prefabs, k),
            final(scene)@.len() == old(scene)@.len() + spec_nodes_before(
                import@.prefabs,
                import@.prefabs.len() as int,
            ),
            forall|e: int|
                0 <= e < old(scene)@.len() ==> final(scene)@[e] == old(scene)@[e],
            forall|k: int, j: int|
                #![trigger import@.prefabs[k].nodes[j]]
                0 <= k < import@.prefabs.len() && 0 <= j < import@.prefabs[k].nodes.len()
                    ==> final(scene)@[old(scene)@.len()
                    + spec_nodes_before(import@.prefabs, k) + j] == Some(
                    spec_spawned_ent(
                        import@.prefabs[k].nodes[j],
                        import@.meshes,
                        old(scene)@.len() + spec_nodes_before(import@.prefabs, k),
                        if j == 0 {
                            spec_root_player(import@)
                        } else {
                            None
                        },
                    ),
                ),
            final(scene)@ =~= spec_composed_scene(old(scene)@, import@),
            missing@.map_values(|m: String| m@) == spec_missing_refs(
                import@,
                import@.prefabs.len() as int,
            ),
            final(self).loaded == old(self).loaded,
            final(self).camera == old(self).camera,
            final(self).atmosphere == old(self).atmosphere,
            final(self).previous_atmosphere == old(self).previous_atmosphere,
            final(self).skyboxes == old(self).skyboxes,
            final(self).active_env == old(self).active_env,
            final(self).drag_file_kind == old(self).drag_file_kind,
            final(self).asset_library == old(self).asset_library,
    {
        let ghost imp = import@;
        let ghost s0 = scene@;
        let ghost me0 = self.model_entities@;
        let ghost q0 = spec_texture_queue(self.texture_queue@);
        let ghost c0 = crate::import::spec_cache_content(self.mesh_cache@);

        // Texture-load requests, in import order.
        let nt = import.textures.len();
        let mut t: usize = 0;
        while t < nt
            invariant
                imp == import@,
                q0 == spec_texture_queue(old(self).texture_queue@),
                *self == (ViewerSession { texture_queue: self.texture_queue, ..*old(self) }),
                nt == import.textures@.len(),
                t <= nt,
                spec_texture_queue(self.texture_queue@) =~= q0 + imp.textures.take(t as int),
            decreases nt - t,
        {
            let name = import.textures[t].0.clone();
            let rgba = import.textures[t].1.rgba.clone();
            let width = import.textures[t].1.width;
            let height = import.textures[t].1.height;
            let ghost cmd = (name@, TextureI { rgba: rgba@, width: width as int, height: height as int });
            let ghost preq = self.texture_queue@;
            self.texture_queue.push((name, TextureData { rgba, width, height }));
            proof {
                assert(spec_texture_queue(preq).len() == preq.len());
                assert(self.texture_queue@ == preq.push(self.texture_queue@.last()));
                assert((self.texture_queue@.last().0@, self.texture_queue@.last().1@) == cmd);
                assert forall|j: int|
                    0 <= j < preq.len() implies spec_texture_queue(preq)[j] == (
                (preq[j].0)@, (preq[j].1)@) by {}
                assert forall|j: int|
                    0 <= j < self.texture_queue@.len() implies spec_texture_queue(
                    self.texture_queue@,
                )[j] == (self.texture_queue@[j].0@, self.texture_queue@[j].1@) by {}
                assert(imp.textures[t as int] == (import.textures@[t as int].0@,
                import.textures@[t as int].1@));
                assert(cmd == imp.textures[t as int]);
                assert(q0 + imp.textures.take(t as int) == spec_texture_queue(preq));
                assert(imp.textures.take(t + 1) =~= imp.textures.take(t as int).push(
                    imp.textures[t as int],
                ));
                assert(q0 + imp.textures.take(t + 1) =~= (q0 + imp.textures.take(
                    t as int,
                )).push(cmd));
                assert(spec_texture_queue(self.texture_queue@) =~= spec_texture_queue(
                    preq,
                ).push(cmd));
                assert(spec_texture_queue(self.texture_queue@) =~= q0 + imp.textures.take(
                    t + 1,
                ));
            }
            t = t + 1;
        }
        proof {
            assert(imp.textures.take(nt as int) =~= imp.textures);
        }

        // Meshes into the shared cache, overwriting by name.
        let nm = import.meshes.len();
        let mut m: usize = 0;
        while m < nm
            invariant
                imp == import@,
                c0 == crate::import::spec_cache_content(old(self).mesh_cache@),
                *self == (ViewerSession {
                    texture_queue: self.texture_queue,
                    mesh_cache: self.mesh_cache,
                    ..*old(self)
                }),
                spec_texture_queue(self.texture_queue@) =~= q0 + imp.textures,
                q0 == spec_texture_queue(old(self).texture_queue@),
                nm == import.meshes@.len(),
                m <= nm,
                self.mesh_cache.wf(),
                crate::import::spec_cache_content(self.mesh_cache@)
                    =~= crate::cache::spec_apply_batch(c0, imp.meshes.take(m as int)),
            decreases nm - m,
        {
            let name = import.meshes[m].0.clone();
            let vertex_data = import.meshes[m].1.vertex_data.clone();
            let indices = import.meshes[m].1.indices.clone();
            let bounding = import.meshes[m].1.bounding;
            let ghost mv = MeshI {
                vertex_data: vertex_data@,
                indices: indices@,
                bounding: match bounding {
                    Some(b) => Some(b@),
                    None => None,
                },
            };
            proof {
                assert(imp.meshes[m as int] == (import.meshes@[m as int].0@,
                import.meshes@[m as int].1@));
                assert(mv == imp.meshes[m as int].1);
                assert(name@ == imp.meshes[m as int].0);
            }
            self.mesh_cache.insert(
                name,
                crate::import::MeshData { vertex_data, indices, bounding },
            );
            proof {
                assert(imp.meshes.take(m + 1).drop_last() =~= imp.meshes.take(m as int));
                assert(imp.meshes.take(m + 1).last() == imp.meshes[m as int]);
            }
            m = m + 1;
        }
        proof {
            assert(imp.meshes.take(nm as int) =~= imp.meshes);
        }

        // Prefabs: spawn every node hierarchy, roots first in identifier
        // order, and collect unresolved mesh references.
        let mut missing: Vec<String> = Vec::new();
        let np = import.prefabs.len();
        let mut k: usize = 0;
        while k < np
            invariant
                imp == import@,
                import_ok(imp),
                s0 == old(scene)@,
                me0 == old(self).model_entities@,
                q0 == spec_texture_queue(old(self).texture_queue@),
                c0 == crate::import::spec_cache_content(old(self).mesh_cache@),
                *self == (ViewerSession {
                    texture_queue: self.texture_queue,
                    mesh_cache: self.mesh_cache,
                    model_entities: self.model_entities,
                    ..*old(self)
                }),
                spec_texture_queue(self.texture_queue@) =~= q0 + imp.textures,
                self.mesh_cache.wf(),
                crate::import::spec_cache_content(self.mesh_cache@) =~= spec_cache_after(
                    c0,
                    imp,
                ),
                np == import.prefabs@.len(),
                k <= np,
                scene.wf(),
                scene@.len() == s0.len() + spec_nodes_before(imp.prefabs, k as int),
                forall|e: int| 0 <= e < s0.len() ==> scene@[e] == s0[e],
                forall|k2: int, j: int|
                    #![trigger imp.prefabs[k2].nodes[j]]
                    0 <= k2 < k && 0 <= j < imp.prefabs[k2].nodes.len()
                        ==> scene@[s0.len() + spec_nodes_before(imp.prefabs, k2) + j] == Some(
                        spec_spawned_ent(
                            imp.prefabs[k2].nodes[j],
                            imp.meshes,
                            s0.len() + spec_nodes_before(imp.prefabs, k2),
                            if j == 0 {
                                spec_root_player(imp)
                            } else {
                                None
                            },
                        ),
                    ),
                self.model_entities@.len() == me0.len() + k as int,
                forall|k2: int| 0 <= k2 < me0.len() ==> self.model_entities@[k2] == me0[k2],
                forall|k2: int|
                    0 <= k2 < k ==> (#[trigger] self.model_entities@[me0.len() + k2]) as int
                        == s0.len() + spec_nodes_before(imp.prefabs, k2),
                missing@.map_values(|x: String| x@) =~= spec_missing_refs(imp, k as int),
            decreases np - k,
        {
            let base = scene.len();
            proof {
                assert(imp.prefabs[k as int] == import.prefabs@[k as int]@);
                assert(crate::import::prefab_ok(imp.prefabs[k as int]));
            }
            let prefab = &import.prefabs[k];
            let nn = prefab.nodes.len();
            let ghost pv = imp.prefabs[k as int];
            let ghost scene_k = scene@;
            let ghost missing_k = missing@.map_values(|x: String| x@);
            let mut j: usize = 0;
            while j < nn
                invariant
                    imp == import@,
                    import_ok(imp),
                    pv == imp.prefabs[k as int],
                    k < np,
                    np == import.prefabs@.len(),
                    prefab == &import.prefabs@[k as int],
                    crate::import::prefab_ok(pv),
                    nn == prefab.nodes@.len(),
                    nn == pv.nodes.len(),
                    j <= nn,
                    base == scene_k.len(),
                    scene.wf(),
                    scene@.len() == base + j as int,
                    forall|e: int| 0 <= e < base ==> scene@[e] == scene_k[e],
                    forall|jj: int|
                        0 <= jj < j ==> scene@[base + jj] == Some(
                            spec_spawned_ent(
                                pv.nodes[jj],
                                imp.meshes,
                                base as int,
                                if jj == 0 {
                                    spec_root_player(imp)
                                } else {
                                    None
                                },
                            ),
                        ),
                    missing@.map_values(|x: String| x@) =~= missing_k + spec_missing_in_nodes(
                        pv.nodes.take(j as int),
                        imp.meshes,
                    ),
                decreases nn - j,
            {
                proof {
                    assert(pv.nodes[j as int] == prefab.nodes@[j as int]@);
                }
                let node = &prefab.nodes[j];
                let cur_len = scene.len();
                let parent: Option<usize> = match node.parent {
                    Some(q) => {
                        proof {
                            assert(pv.nodes[j as int].parent == Some(q as int));
                            if j == 0 {
                                assert(pv.nodes[0].parent is None);
                            }
                            assert(0 <= q < j as int);
                            assert(base + j as int == cur_len as int);
                            assert(scene@[base + q as int] == Some(
                                spec_spawned_ent(
                                    pv.nodes[q as int],
                                    imp.meshes,
                                    base as int,
                                    if q as int == 0 {
                                        spec_root_player(imp)
                                    } else {
                                        None
                                    },
                                ),
                            ));
                        }
                        Some(base + q)
                    },
                    None => None,
                };
                proof {
                    assert(crate::transform::transform_in_range(pv.nodes[j as int].transform));
                }
                let (mesh_name, bounding): (Option<String>, Option<crate::vec3::Aabb>) =
                    match &node.mesh {
                    Some(nm) => {
                        proof {
                            assert(forall|x: int|
                                0 <= x < imp.meshes.len() ==> crate::import::mesh_ok(
                                    (#[trigger] imp.meshes[x]).1,
                                ));
                            lemma_mesh_lookup_ok(imp.meshes, nm@, 0);
                        }
                        match mesh_find(&import.meshes, nm) {
                            Some((resolved, bb)) => (Some(resolved), bb),
                            None => {
                                let ghost pm = missing@;
                                missing.push(nm.clone());
                                proof {
                                    assert(pm.map_values(|x: String| x@).len() == pm.len());
                                    assert(missing@ == pm.push(missing@.last()));
                                    assert(missing@.last()@ == nm@);
                                    assert forall|z: int|
                                        0 <= z < missing@.len() implies missing@.map_values(
                                        |x: String| x@,
                                    )[z] == missing@[z]@ by {}
                                    assert forall|z: int|
                                        0 <= z < pm.len() implies pm.map_values(
                                        |x: String| x@,
                                    )[z] == pm[z]@ by {}
                                    assert(missing@.map_values(|x: String| x@)
                                        =~= pm.map_values(|x: String| x@).push(nm@));
                                }
                                (None, None)
                            },
                        }
                    },
                    None => (None, None),
                };
                let player: Option<AnimationPlayer> = if j == 0 {
                    build_root_player(import)
                } else {
                    None
                };
                scene.spawn(parent, node.transform, mesh_name, bounding, player);
                proof {
                    assert(pv.nodes.take(j + 1).drop_last() =~= pv.nodes.take(j as int));
                    assert(pv.nodes.take(j + 1).last() == pv.nodes[j as int]);
                    assert(scene@[base + j as int] == Some(
                        spec_spawned_ent(
                            pv.nodes[j as int],
                            imp.meshes,
                            base as int,
                            if j == 0 {
                                spec_root_player(imp)
                            } else {
                                None
                            },
                        ),
                    ));
                }
                proof {
                    let mm = missing@.map_values(|x: String| x@);
                    let prev_mi = spec_missing_in_nodes(pv.nodes.take(j as int), imp.meshes);
                    match pv.nodes[j as int].mesh {
                        Some(nmv) => {
                            if spec_mesh_lookup(imp.meshes, nmv) is None {
                                assert(mm =~= (missing_k + prev_mi).push(nmv));
                                assert(prev_mi.push(nmv) =~= prev_mi + seq![nmv]);
                                assert((missing_k + prev_mi).push(nmv) =~= missing_k + (
                                prev_mi + seq![nmv]));
                            } else {
                                assert(prev_mi + Seq::<Seq<char>>::empty() =~= prev_mi);
                            }
                        },
                        None => {
                            assert(prev_mi + Seq::<Seq<char>>::empty() =~= prev_mi);
                        },
                    }
                    assert(mm =~= missing_k + spec_missing_in_nodes(
                        pv.nodes.take(j + 1),
                        imp.meshes,
                    ));
                }
                j = j + 1;
            }
            self.model_entities.push(base);
            proof {
                assert(pv.nodes.take(nn as int) =~= pv.nodes);
                assert(spec_nodes_before(imp.prefabs, k + 1) == spec_nodes_before(
                    imp.prefabs,
                    k as int,
                ) + pv.nodes.len());
                lemma_nodes_before_nonneg(imp.prefabs, k as int);
                assert forall|e: int| 0 <= e < s0.len() implies scene@[e] == s0[e] by {
                    assert(scene@[e] == scene_k[e]);
                }
                assert forall|k2: int, j2: int|
                    #![trigger imp.prefabs[k2].nodes[j2]]
                    0 <= k2 < k + 1 && 0 <= j2 < imp.prefabs[k2].nodes.len() implies scene@[
                s0.len() + spec_nodes_before(imp.prefabs, k2) + j2] == Some(
                    spec_spawned_ent(
                        imp.prefabs[k2].nodes[j2],
                        imp.meshes,
                        s0.len() + spec_nodes_before(imp.prefabs, k2),
                        if j2 == 0 {
                            spec_root_player(imp)
                        } else {
                            None
                        },
                    ),
                ) by {
                    lemma_nodes_before_nonneg(imp.prefabs, k2);
                    if k2 < k as int {
                        lemma_nodes_before_mono(imp.prefabs, k2 + 1, k as int);
                        assert(s0.len() + spec_nodes_before(imp.prefabs, k2) + j2 < base as int);
                        assert(scene@[s0.len() + spec_nodes_before(imp.prefabs, k2) + j2]
                            == scene_k[s0.len() + spec_nodes_before(imp.prefabs, k2) + j2]);
                    } else {
                        assert(base as int == s0.len() + spec_nodes_before(imp.prefabs, k2));
                    }
                }
            }
            k = k + 1;
        }
        proof {
            assert(final(self).model_entities@.len() == me0.len() + np as int);
            lemma_compose_prefabs_pointwise(s0, imp, imp.prefabs.len() as int);
            let model = spec_composed_scene(s0, imp);
            assert(scene@.len() == model.len());
            assert forall|e: int| 0 <= e < scene@.len() implies scene@[e] == model[e] by {
                if e < s0.len() {
                    assert(scene@[e] == s0[e]);
                    assert(model[e] == s0[e]);
                } else {
                    lemma_nodes_before_nonneg(imp.prefabs, imp.prefabs.len() as int);
                    let w = lemma_offset_decompose(
                        imp.prefabs,
                        e - s0.len(),
                        imp.prefabs.len() as int,
                    );
                    let k2 = w.0;
                    let j = w.1;
                    assert(imp.prefabs[k2].nodes[j] == imp.prefabs[k2].nodes[j]);
                    assert(e == s0.len() + spec_nodes_before(imp.prefabs, k2) + j);
                    let ent = Some(
                        spec_spawned_ent(
                            imp.prefabs[k2].nodes[j],
                            imp.meshes,
                            s0.len() + spec_nodes_before(imp.prefabs, k2),
                            if j == 0 {
                                spec_root_player(imp)
                            } else {
                                None
                            },
                        ),
                    );
                    assert(scene@[s0.len() + spec_nodes_before(imp.prefabs, k2) + j] == ent);
                    assert(model[s0.len() + spec_nodes_before(imp.prefabs, k2) + j] == ent);
                }
            }
            assert(scene@ =~= model);
        }
        missing
    }
}


/// Clearing never revives an entity.
proof fn lemma_clear_monotone_dead(s: SceneI, roots: Seq<int>, e: int)
    requires
        !spec_alive(s, e),
    ensures
        !spec_alive(spec_clear_scene(s, roots), e),
    decreases roots.len(),
{
    if roots.len() > 0 {
        lemma_clear_monotone_dead(s, roots.drop_last(), e);
    }
}

/// A survivor of a clear keeps its place in any subtree it was in.
proof fn lemma_clear_preserves_under(s: SceneI, roots: Seq<int>, e: int, r: int)
    requires
        spec_under(s, e, r),
        spec_alive(spec_clear_scene(s, roots), e),
        spec_alive(s, e),
    ensures
        spec_under(spec_clear_scene(s, roots), e, r),
    decreases roots.len(),
{
    if roots.len() > 0 {
        let prev = spec_clear_scene(s, roots.drop_last());
        let q = roots.last();
        if !spec_alive(prev, e) {
            assert(spec_despawn(prev, q)[e] == (if spec_under(prev, e, q) {
                None::<EntI>
            } else {
                prev[e]
            }));
            assert(false);
        }
        lemma_clear_preserves_under(s, roots.drop_last(), e, r);
        if spec_under(prev, e, q) {
            assert(!spec_alive(spec_despawn(prev, q), e));
        }
        crate::scene::lemma_despawn_preserves_under(prev, q, e, r);
    }
}

/// Clearing the listed roots destroys everything beneath any of them.
pub proof fn lemma_clear_kills(s: SceneI, roots: Seq<int>, e: int, r: int)
    requires
        roots.contains(r),
        spec_under(s, e, r),
    ensures
        !spec_alive(spec_clear_scene(s, roots), e),
    decreases roots.len(),
{
    if roots.len() > 0 {
        let prev = spec_clear_scene(s, roots.drop_last());
        let q = roots.last();
        if !spec_alive(s, e) {
            lemma_clear_monotone_dead(s, roots, e);
        } else if !spec_alive(prev, e) {
            assert(!spec_alive(spec_despawn(prev, q), e));
        } else if roots.drop_last().contains(r) {
            lemma_clear_kills(s, roots.drop_last(), e, r);
        } else {
            // r can only be the last root
            let idx = choose|idx: int| 0 <= idx < roots.len() && roots[idx] == r;
            if idx < roots.len() - 1 {
                assert(roots.drop_last()[idx] == r);
                assert(roots.drop_last().contains(r));
            }
            assert(r == q);
            lemma_clear_preserves_under(s, roots.drop_last(), e, r);
            assert(spec_under(prev, e, q));
            assert(!spec_alive(spec_despawn(prev, q), e));
        }
    }
}

impl ViewerSession {
    /// Replace the current model with a freshly imported one: destroy the
    /// previous model's entities, compose the import, mark the session
    /// loaded, and center, fit and re-frame the new model.  Returns the
    /// fit outcome and the unresolved mesh references.
    ///
    /// Afterwards the session holds exactly one root entity per prefab of
    /// this import, and nothing of the previous model is still alive: a
    /// second replacement with the same import therefore yields the same
    /// number of live roots, and (by `lemma_recompose_idempotent`) the
    /// same mesh-cache and texture-store content.
    pub fn replace_model(&mut self, scene: &mut Scene, import: &ImportResult) -> (r: (
        FitOutcome,
        Vec<String>,
    ))
        requires
            old(self).wf(),
            old(scene).wf(),
            import_ok(import@),
        ensures
            final(self).wf(),
            final(scene).wf(),
            final(self).loaded,
            final(self).model_entities@.len() == import@.prefabs.len(),
            // every root is a live entity, one per prefab, in prefab order
            forall|k: int|
                0 <= k < import@.prefabs.len() ==> spec_alive(
                    final(scene)@,
                    (#[trigger] final(self).model_entities@[k]) as int,
                ),
            forall|k: int|
                0 <= k < import@.prefabs.len()
                    ==> (#[trigger] final(self).model_entities@[k]) as int == old(scene)@.len()
                    + spec_nodes_before(import@.prefabs, k),
            // nothing beneath a previous root survives
            forall|e: int, r: int|
                0 <= e < old(scene)@.len() && old(self).model_entities@.map_values(
                    |u: usize| u as int,
                ).contains(r) && spec_under(old(scene)@, e, r) ==> !spec_alive(
                    final(scene)@,
                    e,
                ),
            // the final scene and the fit outcome are determined:
            // clear, compose, then fit
            ({
                let cleared = spec_clear_scene(
                    old(scene)@,
                    old(self).model_entities@.map_values(|u: usize| u as int),
                );
                let composed = spec_composed_scene(cleared, import@);
                let ri = final(self).model_entities@.map_values(|u: usize| u as int);
                match crate::bounds::spec_accumulate(composed, ri) {
                    None => final(scene)@ == composed && r.0 == FitOutcome::NoBounds,
                    Some((mn, mx)) => {
                        let maxdim = crate::fit::spec_max_dimension(mn, mx);
                        if maxdim <= 0 {
                            final(scene)@ == composed && r.0 == FitOutcome::Degenerate
                        } else {
                            final(scene)@ == crate::fit::spec_fit_roots(
                                composed,
                                ri,
                                crate::vec3::spec_v3_mid(mn, mx),
                                crate::fit::spec_fit_scale(maxdim),
                            ) && r.0 == FitOutcome::Fitted
                        }
                    },
                }
            }),
            // the import's content reached the caches and the queue
            spec_texture_queue(final(self).texture_queue@) == spec_texture_queue(
                old(self).texture_queue@,
            ) + import@.textures,
            crate::import::spec_cache_content(final(self).mesh_cache@) =~= spec_cache_after(
                crate::import::spec_cache_content(old(self).mesh_cache@),
                import@,
            ),
            // a successful fit re-frames the camera to the canonical pose
            r.0 == FitOutcome::Fitted ==> final(self).camera@
                == crate::fit::spec_canonical_pose(),
            r.0 != FitOutcome::Fitted ==> final(self).camera == old(self).camera,
            r.1@.map_values(|m: String| m@) == spec_missing_refs(
                import@,
                import@.prefabs.len() as int,
            ),
            final(self).atmosphere == old(self).atmosphere,
            final(self).previous_atmosphere == old(self).previous_atmosphere,
            final(self).skyboxes == old(self).skyboxes,
            final(self).active_env == old(self).active_env,
            final(self).asset_library == old(self).asset_library,
    {
        let ghost s0 = scene@;
        let ghost old_roots = self.model_entities@.map_values(|u: usize| u as int);
        self.clear_scene(scene);
        let ghost cleared = scene@;
        let missing = self.compose_import(scene, import);
        let ghost composed = scene@;
        self.loaded = true;
        let ghost me = self.model_entities@;
        proof {
            assert forall|k: int|
                0 <= k < import@.prefabs.len() implies (#[trigger] me[k]) as int == cleared.len()
                + spec_nodes_before(import@.prefabs, k) by {
                assert(me[0 + k] as int == cleared.len() + spec_nodes_before(
                    import@.prefabs,
                    k,
                ));
            }
            assert forall|k: int|
                0 <= k < import@.prefabs.len() implies spec_alive(
                composed,
                (#[trigger] me[k]) as int,
            ) by {
                assert(me[0 + k] as int == cleared.len() + spec_nodes_before(
                    import@.prefabs,
                    k,
                ));
                assert(me[k] as int == cleared.len() + spec_nodes_before(import@.prefabs, k));
                assert(crate::import::prefab_ok(import@.prefabs[k]));
                assert(composed[me[k] as int] == Some(
                    spec_spawned_ent(
                        import@.prefabs[k].nodes[0],
                        import@.meshes,
                        cleared.len() + spec_nodes_before(import@.prefabs, k),
                        spec_root_player(import@),
                    ),
                ));
                lemma_nodes_before_nonneg(import@.prefabs, k);
                assert(spec_nodes_before(import@.prefabs, k + 1) == spec_nodes_before(
                    import@.prefabs,
                    k,
                ) + import@.prefabs[k].nodes.len());
                lemma_nodes_before_mono(import@.prefabs, k + 1, import@.prefabs.len() as int);
            }
        }
        let outcome = crate::fit::center_and_fit(scene, &self.model_entities, &mut self.camera);
        proof {
            let fitted = scene@;
            let ri = me.map_values(|u: usize| u as int);
            assert forall|e: int, r: int|
                0 <= e < s0.len() && old_roots.contains(r) && spec_under(s0, e, r)
                    implies !spec_alive(fitted, e) by {
                lemma_clear_kills(s0, old_roots, e, r);
                assert(!spec_alive(cleared, e));
                assert(composed[e] == cleared[e]);
                assert(!spec_alive(composed, e));
                // fitting cannot revive anything
                let b = crate::bounds::spec_accumulate(composed, ri);
                match b {
                    Some((mn, mx)) => {
                        let maxdim = crate::fit::spec_max_dimension(mn, mx);
                        if maxdim > 0 {
                            crate::fit::lemma_fit_preserves_alive(
                                composed,
                                ri,
                                crate::vec3::spec_v3_mid(mn, mx),
                                crate::fit::spec_fit_scale(maxdim),
                                e,
                            );
                        }
                    },
                    None => {},
                }
            }
            assert forall|k: int|
                0 <= k < import@.prefabs.len() implies spec_alive(
                fitted,
                (#[trigger] me[k]) as int,
            ) by {
                assert(spec_alive(composed, me[k] as int));
                let b = crate::bounds::spec_accumulate(composed, ri);
                match b {
                    Some((mn, mx)) => {
                        let maxdim = crate::fit::spec_max_dimension(mn, mx);
                        if maxdim > 0 {
                            crate::fit::lemma_fit_preserves_alive(
                                composed,
                                ri,
                                crate::vec3::spec_v3_mid(mn, mx),
                                crate::fit::spec_fit_scale(maxdim),
                                me[k] as int,
                            );
                        }
                    },
                    None => {},
                }
            }
        }
        (outcome, missing)
    }
}


/// Why an FBX load changed nothing.
#[derive(Clone, Copy, Debug, PartialEq, Eq, Structural)]
pub enum FbxError {
    /// The file held neither meshes nor animation clips.
    NoContent,
    /// Animation clips cannot attach: no model is loaded.
    NoModelLoaded,
    /// Animation clips cannot attach: the model has no animation player.
    NoAnimationPlayer,
}

/// What a successful FBX load did.
#[derive(Clone, Copy, Debug, PartialEq, Eq, Structural)]
pub enum FbxOutcome {
    /// The file carried mesh content and replaced the model outright.
    ModelReplaced(FitOutcome),
    /// The file carried clips only; they were attached to the model.
    ClipsAttached(usize),
}

/// A player after new clips are attached: the clips are appended, and if
/// nothing was selected the first clip is selected and starts playing.
pub open spec fn spec_attach_player(p: PlayerI, clips: Seq<ClipI>) -> PlayerI {
    let all = p.clips + clips;
    if p.current_clip is None && all.len() > 0 {
        PlayerI { clips: all, current_clip: Some(0int), time: 0, playing: true, ..p }
    } else {
        PlayerI { clips: all, ..p }
    }
}

impl ViewerSession {
    /// Compose an import into the scene without clearing first, mark the
    /// session loaded, and center, fit and re-frame the model: the
    /// processing step shared by every successful model import.
    pub fn process_import(&mut self, scene: &mut Scene, import: &ImportResult) -> (r: (
        FitOutcome,
        Vec<String>,
    ))
        requires
            old(self).wf(),
            old(scene).wf(),
            import_ok(import@),
        ensures
            final(self).wf(),
            final(scene).wf(),
            final(self).loaded,
            final(self).model_entities@.len() == old(self).model_entities@.len()
                + import@.prefabs.len(),
            // the final scene is determined: compose, then fit
            ({
                let composed = spec_composed_scene(old(scene)@, import@);
                let ri = final(self).model_entities@.map_values(|u: usize| u as int);
                match crate::bounds::spec_accumulate(composed, ri) {
                    None => final(scene)@ == composed,
                    Some((mn, mx)) => {
                        let maxdim = crate::fit::spec_max_dimension(mn, mx);
                        if maxdim <= 0 {
                            final(scene)@ == composed
                        } else {
                            final(scene)@ == crate::fit::spec_fit_roots(
                                composed,
                                ri,
                                crate::vec3::spec_v3_mid(mn, mx),
                                crate::fit::spec_fit_scale(maxdim),
                            )
                        }
                    },
                }
            }),
            spec_texture_queue(final(self).texture_queue@) == spec_texture_queue(
                old(self).texture_queue@,
            ) + import@.textures,
            crate::import::spec_cache_content(final(self).mesh_cache@) =~= spec_cache_after(
                crate::import::spec_cache_content(old(self).mesh_cache@),
                import@,
            ),
            r.0 == FitOutcome::Fitted ==> final(self).camera@
                == crate::fit::spec_canonical_pose(),
            r.0 != FitOutcome::Fitted ==> final(self).camera == old(self).camera,
            r.1@.map_values(|m: String| m@) == spec_missing_refs(
                import@,
                import@.prefabs.len() as int,
            ),
            final(self).atmosphere == old(self).atmosphere,
            final(self).previous_atmosphere == old(self).previous_atmosphere,
            final(self).skyboxes == old(self).skyboxes,
            final(self).active_env == old(self).active_env,
            final(self).asset_library == old(self).asset_library,
    {
        let missing = self.compose_import(scene, import);
        self.loaded = true;
        let outcome = crate::fit::center_and_fit(scene, &self.model_entities, &mut self.camera);
        (outcome, missing)
    }

    /// Load an FBX import.  Mesh content replaces the whole model; a
    /// clip-only file attaches its clips to the loaded model's player; a
    /// file with neither is rejected.  A clip-only file is also rejected,
    /// changing nothing, when no model is loaded or the model's primary
    /// entity carries no animation player.
    pub fn load_fbx(&mut self, scene: &mut Scene, import: &ImportResult) -> (r: Result<
        (FbxOutcome, Vec<String>),
        FbxError,
    >)
        requires
            old(self).wf(),
            old(scene).wf(),
            import_ok(import@),
        ensures
            final(self).wf(),
            final(scene).wf(),
            // exactly when the load is rejected, and why
            r is Err <==> !spec_has_meshes(import@) && (import@.animations.len() == 0 || old(
                self,
            ).model_entities@.len() == 0 || !spec_alive(
                old(scene)@,
                old(self).model_entities@[0] as int,
            ) || crate::scene::spec_ent(
                old(scene)@,
                old(self).model_entities@[0] as int,
            ).player is None),
            r == Err::<(FbxOutcome, Vec<String>), FbxError>(FbxError::NoContent) <==> (
            !spec_has_meshes(import@) && import@.animations.len() == 0),
            r == Err::<(FbxOutcome, Vec<String>), FbxError>(FbxError::NoModelLoaded) <==> (
            !spec_has_meshes(import@) && import@.animations.len() > 0 && old(
                self,
            ).model_entities@.len() == 0),
            // a rejected load changes nothing
            r is Err ==> final(scene)@ == old(scene)@ && *final(self) == *old(self),
            // mesh content performs a full model replacement, exactly as a
            // model import would: destroy the previous model, compose the
            // import, mark the session loaded, fit and re-frame
            spec_has_meshes(import@) ==> {
                &&& r matches Ok((FbxOutcome::ModelReplaced(o), m))
                &&& final(self).loaded
                &&& final(self).model_entities@.len() == import@.prefabs.len()
                // every root is a live entity, one per prefab, in prefab order
                &&& forall|k: int|
                    0 <= k < import@.prefabs.len() ==> spec_alive(
                        final(scene)@,
                        (#[trigger] final(self).model_entities@[k]) as int,
                    )
                &&& forall|k: int|
                    0 <= k < import@.prefabs.len()
                        ==> (#[trigger] final(self).model_entities@[k]) as int
                        == old(scene)@.len() + spec_nodes_before(import@.prefabs, k)
                // nothing beneath a previous root survives
                &&& forall|e: int, rt: int|
                    0 <= e < old(scene)@.len() && old(self).model_entities@.map_values(
                        |u: usize| u as int,
                    ).contains(rt) && spec_under(old(scene)@, e, rt) ==> !spec_alive(
                        final(scene)@,
                        e,
                    )
                // the final scene and the fit outcome are determined:
                // clear, compose, then fit
                &&& ({
                    let cleared = spec_clear_scene(
                        old(scene)@,
                        old(self).model_entities@.map_values(|u: usize| u as int),
                    );
                    let composed = spec_composed_scene(cleared, import@);
                    let ri = final(self).model_entities@.map_values(|u: usize| u as int);
                    match crate::bounds::spec_accumulate(composed, ri) {
                        None => final(scene)@ == composed && o == FitOutcome::NoBounds,
                        Some((mn, mx)) => {
                            let maxdim = crate::fit::spec_max_dimension(mn, mx);
                            if maxdim <= 0 {
                                final(scene)@ == composed && o == FitOutcome::Degenerate
                            } else {
                                final(scene)@ == crate::fit::spec_fit_roots(
                                    composed,
                                    ri,
                                    crate::vec3::spec_v3_mid(mn, mx),
                                    crate::fit::spec_fit_scale(maxdim),
                                ) && o == FitOutcome::Fitted
                            }
                        },
                    }
                })
                // the import's content reached the caches and the queue
                &&& spec_texture_queue(final(self).texture_queue@) == spec_texture_queue(
                    old(self).texture_queue@,
                ) + import@.textures
                &&& crate::import::spec_cache_content(final(self).mesh_cache@)
                    =~= spec_cache_after(
                    crate::import::spec_cache_content(old(self).mesh_cache@),
                    import@,
                )
                // a successful fit re-frames the camera to the canonical pose
                &&& (o == FitOutcome::Fitted ==> final(self).camera@
                    == crate::fit::spec_canonical_pose())
                &&& (o != FitOutcome::Fitted ==> final(self).camera == old(self).camera)
                &&& m@.map_values(|x: String| x@) == spec_missing_refs(
                    import@,
                    import@.prefabs.len() as int,
                )
                &&& final(self).atmosphere == old(self).atmosphere
                &&& final(self).previous_atmosphere == old(self).previous_atmosphere
                &&& final(self).skyboxes == old(self).skyboxes
                &&& final(self).active_env == old(self).active_env
                &&& final(self).asset_library == old(self).asset_library
            },
            // a clip-only attach appends the clips to the primary player
            (r matches Ok((FbxOutcome::ClipsAttached(n), _)) ==> {
                let e0 = old(self).model_entities@[0] as int;
                let oldent = crate::scene::spec_ent(old(scene)@, e0);
                &&& n == import@.animations.len()
                &&& final(scene)@ =~= old(scene)@.update(
                    e0,
                    Some(
                        EntI {
                            player: Some(
                                spec_attach_player(oldent.player.unwrap(), import@.animations),
                            ),
                            ..oldent
                        },
                    ),
                )
                &&& *final(self) == *old(self)
            }),
            !spec_has_meshes(import@) && r is Ok ==> r matches Ok((
                FbxOutcome::ClipsAttached(_),
                _,
            )),
    {
        if import.has_meshes() {
            let (outcome, missing) = self.replace_model(scene, import);
            return Ok((FbxOutcome::ModelReplaced(outcome), missing));
        }
        if import.animations.len() == 0 {
            return Err(FbxError::NoContent);
        }
        if self.model_entities.len() == 0 {
            return Err(FbxError::NoModelLoaded);
        }
        let e0 = self.model_entities[0];
        if !scene.alive(e0) {
            return Err(FbxError::NoAnimationPlayer);
        }
        if !scene.has_player(e0) {
            return Err(FbxError::NoAnimationPlayer);
        }
        let ghost s0 = scene@;
        let taken = scene.take_player(e0);
        let mut player = match taken {
            Some(p) => p,
            None => {
                proof {
                    assert(false);
                }
                AnimationPlayer::new()
            },
        };
        let clips = clone_clips(&import.animations);
        let count = clips.len();
        proof {
            assert forall|i: int| 0 <= i < clips@.len() implies crate::anim::clip_ok(
                (#[trigger] clips@[i])@,
            ) by {
                assert(clips@.map_values(|c: Clip| c@)[i] == clips@[i]@);
                assert(import@.animations[i] == clips@[i]@);
            }
        }
        player.add_clips(clips);
        proof {
            assert(player@.clips =~= crate::scene::spec_ent(s0, e0 as int).player.unwrap().clips
                + import@.animations);
            assert(player@ == spec_attach_player(
                crate::scene::spec_ent(s0, e0 as int).player.unwrap(),
                import@.animations,
            ));
        }
        scene.restore_player(e0, player);
        proof {
            let oldent = crate::scene::spec_ent(s0, e0 as int);
            assert(scene@ =~= s0.update(
                e0 as int,
                Some(
                    EntI {
                        player: Some(spec_attach_player(oldent.player.unwrap(), import@.animations)),
                        ..oldent
                    },
                ),
            ));
        }
        Ok((FbxOutcome::ClipsAttached(count), Vec::new()))
    }
}


/// The hover indicator kind an extension denotes.
pub open spec fn spec_hover_kind(e: Seq<char>) -> HoverKind {
    if e == "hdr"@ {
        HoverKind::Hdr
    } else if e == "gltf"@ || e == "glb"@ {
        HoverKind::Gltf
    } else if e == "fbx"@ {
        HoverKind::Fbx
    } else {
        HoverKind::Unsupported
    }
}

/// The hover indicator kind of a file extension, ignoring case.
pub fn classify_extension(extension: &str) -> (r: HoverKind)
    ensures
        r == spec_hover_kind(crate::text::spec_lower(extension@)),
{
    if crate::text::eq_lower(extension, "hdr") {
        HoverKind::Hdr
    } else if crate::text::eq_lower(extension, "gltf") || crate::text::eq_lower(extension, "glb") {
        HoverKind::Gltf
    } else if crate::text::eq_lower(extension, "fbx") {
        HoverKind::Fbx
    } else {
        HoverKind::Unsupported
    }
}

/// The heading shown while a file of the given kind hovers over the
/// window.
pub fn drop_indicator_message(kind: HoverKind) -> (r: &'static str)
    ensures
        match kind {
            HoverKind::Hdr => r@ == "Drop HDR file to use as skybox"@,
            HoverKind::Gltf => r@ == "Drop glTF/GLB file to load model"@,
            HoverKind::Fbx => r@ == "Drop FBX file to add animations"@,
            HoverKind::Unsupported => r@ == "Unsupported file type"@,
        },
{
    match kind {
        HoverKind::Hdr => "Drop HDR file to use as skybox",
        HoverKind::Gltf => "Drop glTF/GLB file to load model",
        HoverKind::Fbx => "Drop FBX file to add animations",
        HoverKind::Unsupported => "Unsupported file type",
    }
}

impl ViewerSession {
    /// Record the kind of the file hovering over the window.
    pub fn set_hovered(&mut self, extension: &str)
        ensures
            *final(self) == (ViewerSession {
                drag_file_kind: Some(spec_hover_kind(crate::text::spec_lower(extension@))),
                ..*old(self)
            }),
    {
        self.drag_file_kind = Some(classify_extension(extension));
    }

    /// Forget any hovering file (the drag left the window or was dropped).
    pub fn clear_hover(&mut self)
        ensures
            *final(self) == (ViewerSession { drag_file_kind: None, ..*old(self) }),
    {
        self.drag_file_kind = None;
    }

    /// Register and select a skybox loaded from a path: the display name
    /// is the path's file stem (or a fallback when the name is empty),
    /// re-loading an already registered path selects its entry, and the
    /// environment map and atmosphere switch to the loaded image.
    /// Returns the selected catalog index.
    pub fn load_skybox_path(&mut self, path: String) -> (idx: usize)
        requires
            old(self).wf(),
        ensures
            ({
                let stem = crate::text::spec_stem_of_name(
                    crate::text::spec_file_name(path@),
                );
                let nm = if stem.len() == 0 {
                    "Custom HDR"@
                } else {
                    stem
                };
                match crate::catalog::spec_find_path(old(self).skyboxes@.entries, path@) {
                    Some(i) => final(self).skyboxes@.entries == old(self).skyboxes@.entries
                        && idx as int == i,
                    None => final(self).skyboxes@.entries == old(self).skyboxes@.entries.push(
                        crate::catalog::SkyboxEntryI { name: nm, path: path@ },
                    ) && idx as int == old(self).skyboxes@.entries.len(),
                }
            }),
            final(self).skyboxes@.selected == Some(idx as int),
            final(self).atmosphere == Atmosphere::Hdr,
            final(self).active_env@ == EnvSourceI::Path(path@),
            final(self).model_entities == old(self).model_entities,
            final(self).loaded == old(self).loaded,
            final(self).camera == old(self).camera,
            final(self).previous_atmosphere == old(self).previous_atmosphere,
            final(self).mesh_cache == old(self).mesh_cache,
            final(self).texture_queue == old(self).texture_queue,
            final(self).asset_library == old(self).asset_library,
            final(self).wf(),
    {
        let stem = crate::text::path_file_stem(path.as_str());
        let name = if stem.as_str().unicode_len() == 0 {
            proof {
                reveal_strlit("Custom HDR");
            }
            "Custom HDR".to_string()
        } else {
            stem
        };
        self.active_env = EnvSource::Path(path.clone());
        let idx = self.skyboxes.load_path(name, path);
        self.atmosphere = Atmosphere::Hdr;
        idx
    }

    /// Register and select a byte-sourced skybox by its file name's stem:
    /// a matching name selects the existing entry, the environment map is
    /// overwritten by the bytes either way.  Returns the selected index.
    pub fn load_skybox_bytes(&mut self, file_name: String) -> (idx: usize)
        requires
            old(self).wf(),
        ensures
            ({
                let stem = crate::text::spec_stem_of_name(
                    crate::text::spec_file_name(file_name@),
                );
                let nm = if stem.len() == 0 {
                    "Custom HDR"@
                } else {
                    stem
                };
                &&& final(self).active_env@ == EnvSourceI::Bytes(nm)
                &&& match crate::catalog::spec_find_name(old(self).skyboxes@.entries, nm) {
                    Some(i) => final(self).skyboxes@.entries == old(self).skyboxes@.entries
                        && idx as int == i,
                    None => final(self).skyboxes@.entries == old(self).skyboxes@.entries.push(
                        crate::catalog::SkyboxEntryI { name: nm, path: Seq::<char>::empty() },
                    ) && idx as int == old(self).skyboxes@.entries.len(),
                }
            }),
            final(self).skyboxes@.selected == Some(idx as int),
            final(self).atmosphere == Atmosphere::Hdr,
            final(self).model_entities == old(self).model_entities,
            final(self).loaded == old(self).loaded,
            final(self).camera == old(self).camera,
            final(self).previous_atmosphere == old(self).previous_atmosphere,
            final(self).mesh_cache == old(self).mesh_cache,
            final(self).texture_queue == old(self).texture_queue,
            final(self).asset_library == old(self).asset_library,
            final(self).wf(),
    {
        let stem = crate::text::path_file_stem(file_name.as_str());
        let name = if stem.as_str().unicode_len() == 0 {
            proof {
                reveal_strlit("Custom HDR");
            }
            "Custom HDR".to_string()
        } else {
            stem
        };
        self.active_env = EnvSource::Bytes(name.clone());
        let idx = self.skyboxes.load_bytes(name);
        self.atmosphere = Atmosphere::Hdr;
        idx
    }

    /// Re-select an already registered skybox by its catalog index; its
    /// source file becomes the active environment map.  Byte-sourced
    /// entries (empty path) keep their identity as the active source.
    pub fn select_catalog_skybox(&mut self, index: usize)
        requires
            old(self).wf(),
            index < old(self).skyboxes@.entries.len(),
        ensures
            final(self).skyboxes@.entries == old(self).skyboxes@.entries,
            final(self).skyboxes@.selected == Some(index as int),
            final(self).atmosphere == Atmosphere::Hdr,
            final(self).active_env@ == (if old(self).skyboxes@.entries[index as int].path.len()
                > 0 {
                EnvSourceI::Path(old(self).skyboxes@.entries[index as int].path)
            } else {
                EnvSourceI::Bytes(old(self).skyboxes@.entries[index as int].name)
            }),
            final(self).model_entities == old(self).model_entities,
            final(self).loaded == old(self).loaded,
            final(self).camera == old(self).camera,
            final(self).previous_atmosphere == old(self).previous_atmosphere,
            final(self).mesh_cache == old(self).mesh_cache,
            final(self).texture_queue == old(self).texture_queue,
            final(self).asset_library == old(self).asset_library,
            final(self).wf(),
    {
        proof {
            assert(self.skyboxes@.entries[index as int] == self.skyboxes.entries@[index as int]@);
        }
        let entry = &self.skyboxes.entries[index];
        if entry.path.as_str().unicode_len() > 0 {
            self.active_env = EnvSource::Path(entry.path.clone());
        } else {
            self.active_env = EnvSource::Bytes(entry.name.clone());
        }
        self.skyboxes.selected = Some(index);
        self.atmosphere = Atmosphere::Hdr;
    }

    /// Return to the built-in HDR sky: nothing in the catalog stays
    /// selected and the default environment map becomes active.
    pub fn select_default_skybox(&mut self)
        requires
            old(self).wf(),
        ensures
            *final(self) == (ViewerSession {
                skyboxes: final(self).skyboxes,
                atmosphere: Atmosphere::Hdr,
                active_env: final(self).active_env,
                ..*old(self)
            }),
            final(self).skyboxes@.entries == old(self).skyboxes@.entries,
            final(self).skyboxes@.selected is None,
            final(self).active_env is BuiltIn,
            final(self).wf(),
    {
        self.skyboxes.deselect();
        self.atmosphere = Atmosphere::Hdr;
        self.active_env = EnvSource::BuiltIn;
    }

    /// Switch to a procedural atmosphere: the catalog selection is
    /// dropped.  Returns whether the sky capture must be refreshed, which
    /// is exactly when the atmosphere actually changed.
    pub fn select_procedural(&mut self, a: Atmosphere) -> (capture: bool)
        requires
            old(self).wf(),
            a != Atmosphere::Hdr,
        ensures
            final(self).atmosphere == a,
            final(self).previous_atmosphere == a,
            final(self).skyboxes@.entries == old(self).skyboxes@.entries,
            final(self).skyboxes@.selected is None,
            capture == (old(self).previous_atmosphere != a),
            final(self).model_entities == old(self).model_entities,
            final(self).loaded == old(self).loaded,
            final(self).camera == old(self).camera,
            final(self).mesh_cache == old(self).mesh_cache,
            final(self).texture_queue == old(self).texture_queue,
            final(self).active_env == old(self).active_env,
            final(self).asset_library == old(self).asset_library,
            final(self).wf(),
    {
        self.atmosphere = a;
        self.skyboxes.deselect();
        let capture = !(self.previous_atmosphere == a);
        self.previous_atmosphere = a;
        capture
    }

    /// One frame of the arrow-key atmosphere switcher: a fresh right
    /// press steps the cycle forward, a fresh left press steps it
    /// backward, either drops the catalog selection.  Returns whether a
    /// procedural sky capture must run, which is exactly when the
    /// atmosphere changed to a procedural one.
    pub fn atmosphere_switch(&mut self, right_pressed: bool, left_pressed: bool) -> (capture:
        bool)
        requires
            old(self).wf(),
        ensures
            ({
                let right_edge = right_pressed && !old(self).right_arrow_was_pressed;
                let left_edge = left_pressed && !old(self).left_arrow_was_pressed;
                let stepped = if right_edge {
                    crate::catalog::spec_next_atmosphere(old(self).atmosphere)
                } else {
                    old(self).atmosphere
                };
                let after = if left_edge {
                    crate::catalog::spec_previous_atmosphere(stepped)
                } else {
                    stepped
                };
                &&& final(self).atmosphere == after
                &&& final(self).previous_atmosphere == after
                &&& capture == (after != old(self).previous_atmosphere && after
                    != Atmosphere::Hdr)
                &&& final(self).skyboxes@.entries == old(self).skyboxes@.entries
                &&& ((right_edge || left_edge) ==> final(self).skyboxes@.selected is None)
                &&& (!(right_edge || left_edge) ==> final(self).skyboxes@.selected == old(
                    self,
                ).skyboxes@.selected)
            }),
            final(self).right_arrow_was_pressed == right_pressed,
            final(self).left_arrow_was_pressed == left_pressed,
            final(self).model_entities == old(self).model_entities,
            final(self).loaded == old(self).loaded,
            final(self).camera == old(self).camera,
            final(self).mesh_cache == old(self).mesh_cache,
            final(self).texture_queue == old(self).texture_queue,
            final(self).active_env == old(self).active_env,
            final(self).asset_library == old(self).asset_library,
            final(self).wf(),
    {
        if right_pressed && !self.right_arrow_was_pressed {
            self.atmosphere = self.atmosphere.next();
            self.skyboxes.deselect();
        }
        if left_pressed && !self.left_arrow_was_pressed {
            self.atmosphere = self.atmosphere.previous();
            self.skyboxes.deselect();
        }
        self.right_arrow_was_pressed = right_pressed;
        self.left_arrow_was_pressed = left_pressed;
        let mut capture = false;
        if !(self.atmosphere == self.previous_atmosphere) {
            if self.atmosphere.is_procedural() {
                capture = true;
            }
            self.previous_atmosphere = self.atmosphere;
        }
        capture
    }

    /// One frame of the arrow-key asset cycler: a fresh down press
    /// selects the next library entry, a fresh up press the previous one
    /// (wrapping either way).  Returns the path and kind of the newly
    /// selected entry for the caller to load, or nothing when the
    /// selection did not move.  An empty library ignores the keys.
    pub fn asset_cycle(&mut self, up_pressed: bool, down_pressed: bool) -> (r: Option<
        (String, crate::assets::AssetType),
    >)
        requires
            old(self).wf(),
            match old(self).asset_library.selected_index {
                Some(i) => i < old(self).asset_library.entries@.len(),
                None => true,
            },
        ensures
            final(self).wf(),
            old(self).asset_library.entries@.len() == 0 ==> r is None && *final(self) == *old(
                self,
            ),
            ({
                let n = old(self).asset_library.entries@.len() as int;
                let down_edge = down_pressed && !old(self).down_arrow_was_pressed;
                let up_edge = up_pressed && !old(self).up_arrow_was_pressed;
                let target: Option<int> = if n == 0 {
                    None
                } else if up_edge {
                    match old(self).asset_library.selected_index {
                        Some(i) => Some(
                            if i as int == 0 {
                                n - 1
                            } else {
                                i as int - 1
                            },
                        ),
                        None => Some(n - 1),
                    }
                } else if down_edge {
                    match old(self).asset_library.selected_index {
                        Some(i) => Some(
                            if i as int + 1 < n {
                                i as int + 1
                            } else {
                                0
                            },
                        ),
                        None => Some(0int),
                    }
                } else {
                    None
                };
                n > 0 ==> {
                    &&& final(self).up_arrow_was_pressed == up_pressed
                    &&& final(self).down_arrow_was_pressed == down_pressed
                    &&& match target {
                        Some(i) => {
                            &&& final(self).asset_library.selected_index == Some(i as usize)
                            &&& (r matches Some((ref p, t)) && p@
                                == old(self).asset_library.entries@[i]@.path && t == old(
                                self,
                            ).asset_library.entries@[i]@.asset_type)
                        },
                        None => final(self).asset_library.selected_index == old(
                            self,
                        ).asset_library.selected_index && r is None,
                    }
                }
            }),
            // nothing else of the session moves: only the arrow flags and
            // the library selection change
            final(self).model_entities == old(self).model_entities,
            final(self).loaded == old(self).loaded,
            final(self).camera == old(self).camera,
            final(self).atmosphere == old(self).atmosphere,
            final(self).previous_atmosphere == old(self).previous_atmosphere,
            final(self).skyboxes == old(self).skyboxes,
            final(self).mesh_cache == old(self).mesh_cache,
            final(self).texture_queue == old(self).texture_queue,
            final(self).active_env == old(self).active_env,
            final(self).drag_file_kind == old(self).drag_file_kind,
            final(self).left_arrow_was_pressed == old(self).left_arrow_was_pressed,
            final(self).right_arrow_was_pressed == old(self).right_arrow_was_pressed,
            final(self).asset_library.entries == old(self).asset_library.entries,
            final(self).asset_library.search_query == old(self).asset_library.search_query,
            final(self).asset_library.filter_type == old(self).asset_library.filter_type,
            final(self).asset_library.show_glb == old(self).asset_library.show_glb,
            final(self).asset_library.show_gltf == old(self).asset_library.show_gltf,
            final(self).asset_library.show_fbx == old(self).asset_library.show_fbx,
            final(self).asset_library.show_hdr == old(self).asset_library.show_hdr,
            final(self).asset_library.sort_ascending == old(self).asset_library.sort_ascending,
            final(self).asset_library.show_window == old(self).asset_library.show_window,
    {
        let n = self.asset_library.entries.len();
        if n == 0 {
            return None;
        }
        let down_edge = down_pressed && !self.down_arrow_was_pressed;
        let up_edge = up_pressed && !self.up_arrow_was_pressed;
        let mut new_index: Option<usize> = None;
        if down_edge {
            new_index = self.asset_library.cycle_forward_index();
        }
        if up_edge {
            new_index = self.asset_library.cycle_backward_index();
        }
        self.up_arrow_was_pressed = up_pressed;
        self.down_arrow_was_pressed = down_pressed;
        match new_index {
            Some(i) => {
                self.asset_library.selected_index = Some(i);
                let entry = &self.asset_library.entries[i];
                proof {
                    assert(self.asset_library.entries@[i as int]@
                        == old(self).asset_library.entries@[i as int]@);
                }
                Some((entry.path.clone(), entry.asset_type))
            },
            None => None,
        }
    }
}

/// Re-composing the same import leaves the mesh cache and the texture
/// store with the same content as composing it once: both are name-keyed
/// overwrites, so the second application changes nothing.  Together with
/// `replace_model`'s guarantee that the number of live root entities
/// equals the import's prefab count, composing twice (with an
/// intervening clear) is indistinguishable from composing once.
pub proof fn lemma_recompose_idempotent(
    cache: Map<Seq<char>, MeshI>,
    queue: Seq<(Seq<char>, TextureI)>,
    imp: ImportI,
)
    ensures
        spec_cache_after(spec_cache_after(cache, imp), imp) =~= spec_cache_after(cache, imp),
        spec_texture_content(queue + imp.textures + imp.textures) =~= spec_texture_content(
            queue + imp.textures,
        ),
{
    crate::cache::lemma_apply_batch_idempotent(cache, imp.meshes);
    crate::cache::lemma_assoc_map_concat(queue, imp.textures);
    crate::cache::lemma_assoc_map_concat(queue + imp.textures, imp.textures);
    crate::cache::lemma_apply_batch_idempotent(spec_assoc_map(queue), imp.textures);
}

} // verus!
