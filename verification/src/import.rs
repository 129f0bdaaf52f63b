//! The structured result of an external model import, and the shared
//! mesh cache it feeds.
//!
//! An `ImportResult` bundles textures, meshes, prefabs, skinning data and
//! animation clips, exactly as an external glTF or FBX parser hands them
//! over.  Texture and mesh names are unique within one result; a prefab is
//! a flat node hierarchy whose first node is the root and whose parent
//! links point backward.

use vstd::prelude::*;

use crate::anim::{clip_ok, Clip, ClipI};
use crate::cache::{spec_apply_batch, spec_assoc_map};
use crate::fixed::FX_MAX;
use crate::transform::{transform_in_range, Transform, TransformI};
use crate::vec3::{aabb_in_range, Aabb, AabbI};

verus! {

/// RGBA8 pixel data for one named texture.
#[derive(Debug)]
pub struct TextureData {
    pub rgba: Vec<u8>,
    pub width: u32,
    pub height: u32,
}

/// Mathematical image of a texture payload.
pub struct TextureI {
    pub rgba: Seq<u8>,
    pub width: int,
    pub height: int,
}

impl View for TextureData {
    type V = TextureI;

    open spec fn view(&self) -> TextureI {
        TextureI { rgba: self.rgba@, width: self.width as int, height: self.height as int }
    }
}

/// Geometry for one named mesh: raw vertex bytes, triangle indices and,
/// when the importer provides one, an object-space bounding volume.
#[derive(Debug)]
pub struct MeshData {
    pub vertex_data: Vec<u8>,
    pub indices: Vec<u32>,
    pub bounding: Option<Aabb>,
}

/// Mathematical image of a mesh payload.
pub struct MeshI {
    pub vertex_data: Seq<u8>,
    pub indices: Seq<u32>,
    pub bounding: Option<AabbI>,
}

impl View for MeshData {
    type V = MeshI;

    open spec fn view(&self) -> MeshI {
        MeshI {
            vertex_data: self.vertex_data@,
            indices: self.indices@,
            bounding: match self.bounding {
                Some(b) => Some(b@),
                None => None,
            },
        }
    }
}

/// One node of a prefab hierarchy: its parent within the prefab (none for
/// the root), its local transform, and the mesh it references by name.
#[derive(Debug)]
pub struct Node {
    pub parent: Option<usize>,
    pub transform: Transform,
    pub mesh: Option<String>,
}

/// Mathematical image of a node.
pub struct NodeI {
    pub parent: Option<int>,
    pub transform: TransformI,
    pub mesh: Option<Seq<char>>,
}

impl View for Node {
    type V = NodeI;

    open spec fn view(&self) -> NodeI {
        NodeI {
            parent: match self.parent {
                Some(p) => Some(p as int),
                None => None,
            },
            transform: self.transform@,
            mesh: match self.mesh {
                Some(ref n) => Some(n@),
                None => None,
            },
        }
    }
}

/// A named, reusable node hierarchy, instantiated into live entities on
/// composition.  The first node is the root.
#[derive(Debug)]
pub struct Prefab {
    pub name: String,
    pub nodes: Vec<Node>,
}

/// Mathematical image of a prefab.
pub struct PrefabI {
    pub name: Seq<char>,
    pub nodes: Seq<NodeI>,
}

impl View for Prefab {
    type V = PrefabI;

    open spec fn view(&self) -> PrefabI {
        PrefabI { name: self.name@, nodes: self.nodes@.map_values(|n: Node| n@) }
    }
}

/// Skinning data: a named joint hierarchy associated with the prefabs.
#[derive(Debug)]
pub struct Skin {
    pub name: String,
    pub joints: Vec<u32>,
}

/// Mathematical image of a skin.
pub struct SkinI {
    pub name: Seq<char>,
    pub joints: Seq<u32>,
}

impl View for Skin {
    type V = SkinI;

    open spec fn view(&self) -> SkinI {
        SkinI { name: self.name@, joints: self.joints@ }
    }
}

/// Everything one successful external import hands to the composer.
#[derive(Debug)]
pub struct ImportResult {
    pub textures: Vec<(String, TextureData)>,
    pub meshes: Vec<(String, MeshData)>,
    pub prefabs: Vec<Prefab>,
    pub skins: Vec<Skin>,
    pub animations: Vec<Clip>,
}

/// Mathematical image of an import result.
pub struct ImportI {
    pub textures: Seq<(Seq<char>, TextureI)>,
    pub meshes: Seq<(Seq<char>, MeshI)>,
    pub prefabs: Seq<PrefabI>,
    pub skins: Seq<SkinI>,
    pub animations: Seq<ClipI>,
}

impl View for ImportResult {
    type V = ImportI;

    open spec fn view(&self) -> ImportI {
        ImportI {
            textures: self.textures@.map_values(|t: (String, TextureData)| (t.0@, t.1@)),
            meshes: self.meshes@.map_values(|m: (String, MeshData)| (m.0@, m.1@)),
            prefabs: self.prefabs@.map_values(|p: Prefab| p@),
            skins: self.skins@.map_values(|s: Skin| s@),
            animations: self.animations@.map_values(|c: Clip| c@),
        }
    }
}

/// Names in an association list are pairwise distinct.
pub open spec fn spec_names_unique<V>(s: Seq<(Seq<char>, V)>) -> bool {
    forall|i: int, j: int| 0 <= i < j < s.len() ==> (#[trigger] s[i]).0 != (#[trigger] s[j]).0
}

/// A mesh payload is representable.
pub open spec fn mesh_ok(m: MeshI) -> bool {
    match m.bounding {
        Some(b) => aabb_in_range(b),
        None => true,
    }
}

/// A prefab is a well-formed flat hierarchy: it has a root node without a
/// parent, every later node's parent link points backward, and every local
/// transform is representable.
pub open spec fn prefab_ok(p: PrefabI) -> bool {
    &&& p.nodes.len() >= 1
    &&& p.nodes[0].parent is None
    &&& forall|i: int|
        1 <= i < p.nodes.len() ==> match (#[trigger] p.nodes[i]).parent {
            Some(q) => 0 <= q < i,
            None => false,
        }
    &&& forall|i: int| 0 <= i < p.nodes.len() ==> transform_in_range((#[trigger] p.nodes[i]).transform)
}

/// The invariant of an import result: unique texture and mesh names,
/// well-formed prefabs and representable clip durations.
pub open spec fn import_ok(r: ImportI) -> bool {
    &&& spec_names_unique(r.textures)
    &&& spec_names_unique(r.meshes)
    &&& forall|i: int| 0 <= i < r.meshes.len() ==> mesh_ok((#[trigger] r.meshes[i]).1)
    &&& forall|i: int| 0 <= i < r.prefabs.len() ==> prefab_ok(#[trigger] r.prefabs[i])
    &&& forall|i: int| 0 <= i < r.animations.len() ==> clip_ok(#[trigger] r.animations[i])
}

/// The import result carries renderable content (prefabs or meshes), as
/// opposed to animation clips alone.
pub open spec fn spec_has_meshes(r: ImportI) -> bool {
    r.prefabs.len() > 0 || r.meshes.len() > 0
}

impl ImportResult {
    /// An import result with no content at all.
    pub fn empty() -> (r: ImportResult)
        ensures
            r@.textures.len() == 0,
            r@.meshes.len() == 0,
            r@.prefabs.len() == 0,
            r@.skins.len() == 0,
            r@.animations.len() == 0,
            import_ok(r@),
    {
        ImportResult {
            textures: Vec::new(),
            meshes: Vec::new(),
            prefabs: Vec::new(),
            skins: Vec::new(),
            animations: Vec::new(),
        }
    }

    /// Runtime check of the import invariant, for results assembled by
    /// unverified parser glue.
    pub fn well_formed(&self) -> (r: bool)
        ensures
            r == import_ok(self@),
    {
        let tex_ok = names_unique_textures(&self.textures);
        if !tex_ok {
            return false;
        }
        let mesh_names_ok = names_unique_meshes(&self.meshes);
        if !mesh_names_ok {
            return false;
        }
        let mut i: usize = 0;
        let n_meshes = self.meshes.len();
        while i < n_meshes
            invariant
                n_meshes == self@.meshes.len(),
                self@.meshes == self.meshes@.map_values(|m: (String, MeshData)| (m.0@, m.1@)),
                i <= n_meshes,
                forall|j: int| 0 <= j < i ==> mesh_ok((#[trigger] self@.meshes[j]).1),
            decreases n_meshes - i,
        {
            let ok = match &self.meshes[i].1.bounding {
                Some(b) => b.check_in_range(),
                None => true,
            };
            if !ok {
                proof {
                    assert(self@.meshes[i as int] == (self.meshes@[i as int].0@,
                    self.meshes@[i as int].1@));
                    assert(!mesh_ok(self@.meshes[i as int].1));
                }
                return false;
            }
            i = i + 1;
        }
        let mut p: usize = 0;
        let n_prefabs = self.prefabs.len();
        while p < n_prefabs
            invariant
                n_prefabs == self@.prefabs.len(),
                self@.prefabs == self.prefabs@.map_values(|q: Prefab| q@),
                p <= n_prefabs,
                forall|j: int| 0 <= j < p ==> prefab_ok(#[trigger] self@.prefabs[j]),
            decreases n_prefabs - p,
        {
            if !prefab_check(&self.prefabs[p]) {
                proof {
                    assert(self@.prefabs[p as int] == self.prefabs@[p as int]@);
                }
                return false;
            }
            p = p + 1;
        }
        let mut c: usize = 0;
        let n_clips = self.animations.len();
        while c < n_clips
            invariant
                n_clips == self@.animations.len(),
                self@.animations == self.animations@.map_values(|k: Clip| k@),
                c <= n_clips,
                forall|j: int| 0 <= j < c ==> clip_ok(#[trigger] self@.animations[j]),
            decreases n_clips - c,
        {
            let d = self.animations[c].duration;
            if !(0 <= d && d <= FX_MAX) {
                proof {
                    assert(self@.animations[c as int] == self.animations@[c as int]@);
                    assert(!clip_ok(self@.animations[c as int]));
                }
                return false;
            }
            c = c + 1;
        }
        true
    }

    /// The import carries renderable content rather than clips alone.
    pub fn has_meshes(&self) -> (r: bool)
        ensures
            r == spec_has_meshes(self@),
    {
        self.prefabs.len() > 0 || self.meshes.len() > 0
    }
}

fn names_unique_textures(s: &Vec<(String, TextureData)>) -> (r: bool)
    ensures
        r == spec_names_unique(s@.map_values(|t: (String, TextureData)| (t.0@, t.1@))),
{
    let ghost sv = s@.map_values(|t: (String, TextureData)| (t.0@, t.1@));
    let n = s.len();
    let mut i: usize = 0;
    while i < n
        invariant
            n == s@.len(),
            sv == s@.map_values(|t: (String, TextureData)| (t.0@, t.1@)),
            i <= n,
            forall|a: int, b: int| 0 <= a < b < n && a < i ==> (#[trigger] sv[a]).0 != (
            #[trigger] sv[b]).0,
        decreases n - i,
    {
        let mut j: usize = i + 1;
        while j < n
            invariant
                n == s@.len(),
                sv == s@.map_values(|t: (String, TextureData)| (t.0@, t.1@)),
                i < j || i + 1 == j,
                i < n,
                j <= n,
                forall|b: int| i < b < j ==> (#[trigger] sv[b]).0 != sv[i as int].0,
            decreases n - j,
        {
            if s[i].0 == s[j].0 {
                proof {
                    assert(sv[i as int].0 == sv[j as int].0);
                }
                return false;
            }
            j = j + 1;
        }
        i = i + 1;
    }
    true
}

fn names_unique_meshes(s: &Vec<(String, MeshData)>) -> (r: bool)
    ensures
        r == spec_names_unique(s@.map_values(|t: (String, MeshData)| (t.0@, t.1@))),
{
    let ghost sv = s@.map_values(|t: (String, MeshData)| (t.0@, t.1@));
    let n = s.len();
    let mut i: usize = 0;
    while i < n
        invariant
            n == s@.len(),
            sv == s@.map_values(|t: (String, MeshData)| (t.0@, t.1@)),
            i <= n,
            forall|a: int, b: int| 0 <= a < b < n && a < i ==> (#[trigger] sv[a]).0 != (
            #[trigger] sv[b]).0,
        decreases n - i,
    {
        let mut j: usize = i + 1;
        while j < n
            invariant
                n == s@.len(),
                sv == s@.map_values(|t: (String, MeshData)| (t.0@, t.1@)),
                i < j || i + 1 == j,
                i < n,
                j <= n,
                forall|b: int| i < b < j ==> (#[trigger] sv[b]).0 != sv[i as int].0,
            decreases n - j,
        {
            if s[i].0 == s[j].0 {
                proof {
                    assert(sv[i as int].0 == sv[j as int].0);
                }
                return false;
            }
            j = j + 1;
        }
        i = i + 1;
    }
    true
}

fn prefab_check(p: &Prefab) -> (r: bool)
    ensures
        r == prefab_ok(p@),
{
    let n = p.nodes.len();
    if n == 0 {
        return false;
    }
    proof {
        assert(p@.nodes[0] == p.nodes@[0]@);
    }
    if p.nodes[0].parent.is_some() {
        return false;
    }
    let mut i: usize = 1;
    while i < n
        invariant
            n == p@.nodes.len(),
            p@.nodes == p.nodes@.map_values(|q: Node| q@),
            1 <= i <= n,
            forall|j: int|
                1 <= j < i ==> match (#[trigger] p@.nodes[j]).parent {
                    Some(q) => 0 <= q < j,
                    None => false,
                },
        decreases n - i,
    {
        proof {
            assert(p@.nodes[i as int] == p.nodes@[i as int]@);
        }
        match p.nodes[i].parent {
            Some(q) => {
                if q >= i {
                    return false;
                }
            },
            None => {
                return false;
            },
        }
        i = i + 1;
    }
    proof {
        assert(p@.nodes[0] == p.nodes@[0]@);
    }
    let mut k: usize = 0;
    while k < n
        invariant
            n == p@.nodes.len(),
            p@.nodes == p.nodes@.map_values(|q: Node| q@),
            k <= n,
            p@.nodes.len() >= 1,
            p@.nodes[0].parent is None,
            forall|j: int|
                1 <= j < n ==> match (#[trigger] p@.nodes[j]).parent {
                    Some(q) => 0 <= q < j,
                    None => false,
                },
            forall|j: int| 0 <= j < k ==> transform_in_range((#[trigger] p@.nodes[j]).transform),
        decreases n - k,
    {
        proof {
            assert(p@.nodes[k as int] == p.nodes@[k as int]@);
        }
        if !p.nodes[k].transform.check_in_range() {
            return false;
        }
        k = k + 1;
    }
    true
}

/// The process-wide mesh cache: meshes keyed by name, later insertions
/// overwriting earlier ones.
#[derive(Debug)]
pub struct MeshCache {
    pub entries: Vec<(String, MeshData)>,
}

impl View for MeshCache {
    type V = Seq<(Seq<char>, MeshI)>;

    open spec fn view(&self) -> Seq<(Seq<char>, MeshI)> {
        self.entries@.map_values(|m: (String, MeshData)| (m.0@, m.1@))
    }
}

/// The content of the cache: the name-to-mesh map its entries describe.
pub open spec fn spec_cache_content(c: Seq<(Seq<char>, MeshI)>) -> Map<Seq<char>, MeshI> {
    spec_assoc_map(c)
}

impl MeshCache {
    pub open spec fn wf(&self) -> bool {
        spec_names_unique(self@)
    }

    pub fn new() -> (r: MeshCache)
        ensures
            r@ =~= Seq::<(Seq<char>, MeshI)>::empty(),
            r.wf(),
    {
        MeshCache { entries: Vec::new() }
    }

    /// Insert one mesh under its name, overwriting an entry with the same
    /// name if one exists.
    pub fn insert(&mut self, name: String, mesh: MeshData)
        requires
            old(self).wf(),
        ensures
            spec_cache_content(final(self)@) =~= spec_cache_content(old(self)@).insert(
                name@,
                mesh@,
            ),
            final(self).wf(),
    {
        let ghost ov = self@;
        let n = self.entries.len();
        let mut i: usize = 0;
        while i < n
            invariant
                ov == old(self)@,
                spec_names_unique(ov),
                n == self.entries@.len(),
                self@ == ov,
                i <= n,
                forall|j: int| 0 <= j < i ==> (#[trigger] ov[j]).0 != name@,
            decreases n - i,
        {
            if self.entries[i].0 == name {
                proof {
                    assert(ov[i as int].0 == name@);
                }
                self.entries.set(i, (name, mesh));
                proof {
                    assert(self@ =~= ov.update(i as int, (ov[i as int].0, mesh@)));
                    lemma_assoc_update(ov, i as int, mesh@);
                    assert forall|a: int, b: int|
                        0 <= a < b < self@.len() implies (#[trigger] self@[a]).0 != (
                    #[trigger] self@[b]).0 by {
                        assert(ov[a].0 == self@[a].0);
                        assert(ov[b].0 == self@[b].0);
                    }
                }
                return ;
            }
            i = i + 1;
        }
        self.entries.push((name, mesh));
        proof {
            assert(self@ =~= ov.push((name@, mesh@)));
            assert(self@.drop_last() =~= ov);
        }
    }
}

/// Overwriting the entry at `i` with a new value under the same name turns
/// the described map into the old map with that name re-bound — provided
/// names are unique, so no later entry shadows it.
proof fn lemma_assoc_update(s: Seq<(Seq<char>, MeshI)>, i: int, v: MeshI)
    requires
        spec_names_unique(s),
        0 <= i < s.len(),
    ensures
        spec_assoc_map(s.update(i, (s[i].0, v))) =~= spec_assoc_map(s).insert(s[i].0, v),
    decreases s.len(),
{
    let u = s.update(i, (s[i].0, v));
    if i == s.len() - 1 {
        assert(u.drop_last() =~= s.drop_last());
    } else {
        assert(u.drop_last() =~= s.drop_last().update(i, (s[i].0, v)));
        assert(spec_names_unique(s.drop_last()));
        lemma_assoc_update(s.drop_last(), i, v);
        assert(s.last().0 != s[i].0);
    }
}

/// The mesh-cache content after composing an import: every mesh of the
/// import inserted under its name, in order.
pub open spec fn spec_cache_after(
    c: Map<Seq<char>, MeshI>,
    imp: ImportI,
) -> Map<Seq<char>, MeshI> {
    spec_apply_batch(c, imp.meshes)
}

} // verus!
