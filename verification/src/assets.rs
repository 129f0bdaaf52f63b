//! The asset library: classified directory entries, filtering, search,
//! ordering and keyboard cycling.

use vstd::prelude::*;

use crate::text::{
    contains_lower, eq_lower, lower_string, lt_lower, spec_contains_seq, spec_lex_lt, spec_lower,
};

verus! {

/// What kind of asset a file holds, by its extension.
#[derive(Clone, Copy, Debug, PartialEq, Eq, Structural)]
pub enum AssetType {
    Model,
    Animation,
    Skybox,
}

/// The asset kind an extension denotes, after case folding.
pub open spec fn spec_asset_type_of_ext(e: Seq<char>) -> Option<AssetType> {
    if e == "gltf"@ || e == "glb"@ {
        Some(AssetType::Model)
    } else if e == "fbx"@ {
        Some(AssetType::Animation)
    } else if e == "hdr"@ {
        Some(AssetType::Skybox)
    } else {
        None
    }
}

impl AssetType {
    /// Classify a file extension, ignoring case.  Unrecognized extensions
    /// yield `None`.
    pub fn from_extension(extension: &str) -> (r: Option<AssetType>)
        ensures
            r == spec_asset_type_of_ext(spec_lower(extension@)),
    {
        if eq_lower(extension, "gltf") || eq_lower(extension, "glb") {
            Some(AssetType::Model)
        } else if eq_lower(extension, "fbx") {
            Some(AssetType::Animation)
        } else if eq_lower(extension, "hdr") {
            Some(AssetType::Skybox)
        } else {
            None
        }
    }

    /// A display label for the kind.
    pub fn name(&self) -> (r: &'static str)
        ensures
            match *self {
                AssetType::Model => r@ == "Model"@,
                AssetType::Animation => r@ == "Animation"@,
                AssetType::Skybox => r@ == "Skybox"@,
            },
    {
        match self {
            AssetType::Model => "Model",
            AssetType::Animation => "Animation",
            AssetType::Skybox => "Skybox",
        }
    }
}

/// One scanned file: its path, display name, lower-cased extension,
/// kind, and the tags and categories of its accompanying description.
#[derive(Debug)]
pub struct AssetEntry {
    pub path: String,
    pub name: String,
    pub extension: String,
    pub asset_type: AssetType,
    pub tags: Vec<String>,
    pub categories: Vec<String>,
}

/// Mathematical image of an entry.
pub struct AssetEntryI {
    pub path: Seq<char>,
    pub name: Seq<char>,
    pub extension: Seq<char>,
    pub asset_type: AssetType,
    pub tags: Seq<Seq<char>>,
    pub categories: Seq<Seq<char>>,
}

impl View for AssetEntry {
    type V = AssetEntryI;

    open spec fn view(&self) -> AssetEntryI {
        AssetEntryI {
            path: self.path@,
            name: self.name@,
            extension: self.extension@,
            asset_type: self.asset_type,
            tags: self.tags@.map_values(|t: String| t@),
            categories: self.categories@.map_values(|t: String| t@),
        }
    }
}

/// The library window's entries and filter state.
#[derive(Debug)]
pub struct AssetLibrary {
    pub entries: Vec<AssetEntry>,
    pub search_query: String,
    pub filter_type: Option<AssetType>,
    pub show_glb: bool,
    pub show_gltf: bool,
    pub show_fbx: bool,
    pub show_hdr: bool,
    pub sort_ascending: bool,
    pub show_window: bool,
    pub selected_index: Option<usize>,
}

impl Default for AssetLibrary {
    /// A fresh library: no entries, no query, every extension shown,
    /// ascending order, window hidden, nothing selected.
    fn default() -> (r: AssetLibrary)
        ensures
            r.entries@.len() == 0,
            r.search_query@.len() == 0,
            r.filter_type is None,
            r.show_glb && r.show_gltf && r.show_fbx && r.show_hdr,
            r.sort_ascending,
            !r.show_window,
            r.selected_index is None,
    {
        AssetLibrary {
            entries: Vec::new(),
            search_query: String::new(),
            filter_type: None,
            show_glb: true,
            show_gltf: true,
            show_fbx: true,
            show_hdr: true,
            sort_ascending: true,
            show_window: false,
            selected_index: None,
        }
    }
}

/// The extension filter admits this entry.
pub open spec fn spec_ext_shown(
    e: AssetEntryI,
    show_glb: bool,
    show_gltf: bool,
    show_fbx: bool,
    show_hdr: bool,
) -> bool {
    if spec_lower(e.extension) == "glb"@ {
        show_glb
    } else if spec_lower(e.extension) == "gltf"@ {
        show_gltf
    } else if spec_lower(e.extension) == "fbx"@ {
        show_fbx
    } else if spec_lower(e.extension) == "hdr"@ {
        show_hdr
    } else {
        true
    }
}

/// The folded query occurs in the entry's folded name, or one of its
/// folded tags or categories.
pub open spec fn spec_query_matches(e: AssetEntryI, q: Seq<char>) -> bool {
    ||| spec_contains_seq(spec_lower(e.name), q)
    ||| exists|k: int| 0 <= k < e.tags.len() && spec_contains_seq(spec_lower(#[trigger] e.tags[k]), q)
    ||| exists|k: int|
        0 <= k < e.categories.len() && spec_contains_seq(
            spec_lower(#[trigger] e.categories[k]),
            q,
        )
}

/// An entry passes the extension boxes, the kind filter and the search.
pub open spec fn spec_entry_visible(e: AssetEntryI, lib: &AssetLibrary) -> bool {
    &&& spec_ext_shown(e, lib.show_glb, lib.show_gltf, lib.show_fbx, lib.show_hdr)
    &&& match lib.filter_type {
        Some(t) => e.asset_type == t,
        None => true,
    }
    &&& (lib.search_query@.len() == 0 || spec_query_matches(e, spec_lower(lib.search_query@)))
}

impl AssetLibrary {
    /// Whether an entry passes the current extension boxes, kind filter
    /// and search query.
    pub fn entry_visible(&self, e: &AssetEntry) -> (r: bool)
        ensures
            r == spec_entry_visible(e@, self),
    {
        let ext = e.extension.as_str();
        let shown: bool = if eq_lower(ext, "glb") {
            self.show_glb
        } else if eq_lower(ext, "gltf") {
            self.show_gltf
        } else if eq_lower(ext, "fbx") {
            self.show_fbx
        } else if eq_lower(ext, "hdr") {
            self.show_hdr
        } else {
            true
        };
        if !shown {
            return false;
        }
        match self.filter_type {
            Some(t) => {
                if !(e.asset_type == t) {
                    return false;
                }
            },
            None => {},
        }
        if self.search_query.as_str().unicode_len() == 0 {
            return true;
        }
        let q = lower_string(self.search_query.as_str());
        if contains_lower(e.name.as_str(), q.as_str()) {
            return true;
        }
        let nt = e.tags.len();
        let mut k: usize = 0;
        while k < nt
            invariant
                nt == e.tags@.len(),
                k <= nt,
                e@.tags == e.tags@.map_values(|t: String| t@),
                spec_ext_shown(e@, self.show_glb, self.show_gltf, self.show_fbx, self.show_hdr),
                match self.filter_type {
                    Some(t) => e@.asset_type == t,
                    None => true,
                },
                self.search_query@.len() > 0,
                q@ == spec_lower(self.search_query@),
                forall|j: int|
                    0 <= j < k ==> !spec_contains_seq(spec_lower(#[trigger] e@.tags[j]), q@),
            decreases nt - k,
        {
            if contains_lower(e.tags[k].as_str(), q.as_str()) {
                proof {
                    assert(e@.tags[k as int] == e.tags@[k as int]@);
                }
                return true;
            }
            proof {
                assert(e@.tags[k as int] == e.tags@[k as int]@);
            }
            k = k + 1;
        }
        let nc = e.categories.len();
        let mut k2: usize = 0;
        while k2 < nc
            invariant
                nc == e.categories@.len(),
                k2 <= nc,
                e@.categories == e.categories@.map_values(|t: String| t@),
                spec_ext_shown(e@, self.show_glb, self.show_gltf, self.show_fbx, self.show_hdr),
                match self.filter_type {
                    Some(t) => e@.asset_type == t,
                    None => true,
                },
                self.search_query@.len() > 0,
                q@ == spec_lower(self.search_query@),
                forall|j: int|
                    0 <= j < k2 ==> !spec_contains_seq(
                        spec_lower(#[trigger] e@.categories[j]),
                        q@,
                    ),
            decreases nc - k2,
        {
            if contains_lower(e.categories[k2].as_str(), q.as_str()) {
                proof {
                    assert(e@.categories[k2 as int] == e.categories@[k2 as int]@);
                }
                return true;
            }
            proof {
                assert(e@.categories[k2 as int] == e.categories@[k2 as int]@);
            }
            k2 = k2 + 1;
        }
        false
    }

    /// The next selected index when cycling forward: one past the current
    /// selection, wrapping to the start; the first entry when nothing was
    /// selected.
    pub fn cycle_forward_index(&self) -> (r: Option<usize>)
        ensures
            self.entries@.len() == 0 ==> r is None,
            self.entries@.len() > 0 ==> match self.selected_index {
                Some(i) => r == Some(
                    (if i as int + 1 < self.entries@.len() {
                        i as int + 1
                    } else {
                        0
                    }) as usize,
                ),
                None => r == Some(0usize),
            },
    {
        let n = self.entries.len();
        if n == 0 {
            return None;
        }
        match self.selected_index {
            Some(i) => {
                if i < n - 1 {
                    Some(i + 1)
                } else {
                    Some(0)
                }
            },
            None => Some(0),
        }
    }

    /// The next selected index when cycling backward: one before the
    /// current selection, wrapping to the end; the last entry when
    /// nothing was selected.
    pub fn cycle_backward_index(&self) -> (r: Option<usize>)
        ensures
            self.entries@.len() == 0 ==> r is None,
            self.entries@.len() > 0 ==> match self.selected_index {
                Some(i) => r == Some(
                    (if i as int == 0 {
                        self.entries@.len() - 1
                    } else {
                        i as int - 1
                    }) as usize,
                ),
                None => r == Some((self.entries@.len() - 1) as usize),
            },
    {
        let n = self.entries.len();
        if n == 0 {
            return None;
        }
        match self.selected_index {
            Some(i) => {
                if i == 0 {
                    Some(n - 1)
                } else {
                    Some(i - 1)
                }
            },
            None => Some(n - 1),
        }
    }
}

/// The display base name of a scanned file: the description's name when
/// one is present, otherwise the file stem.
pub open spec fn spec_entry_base(
    path: Seq<char>,
    info: Option<crate::info::InfoI>,
) -> Seq<char> {
    match info {
        Some(i) => i.name,
        None => crate::text::spec_stem_of_name(crate::text::spec_file_name(path)),
    }
}

/// Classify one scanned file into a library entry.  A file without an
/// extension, or with an unrecognized one, yields no entry.  The entry's
/// display name is `base.extension` with the extension lower-cased, and
/// the description's tags and categories carry over.
pub fn build_asset_entry(path: String, info: Option<crate::info::AssetInfo>) -> (r: Option<
    AssetEntry,
>)
    ensures
        ({
            let ext = crate::text::spec_ext_of_name(crate::text::spec_file_name(path@));
            match ext {
                None => r is None,
                Some(x) => {
                    let low = spec_lower(x);
                    match spec_asset_type_of_ext(low) {
                        None => r is None,
                        Some(t) => r matches Some(e) && e@.path == path@ && e@.extension == low
                            && e@.asset_type == t && e@.name == spec_entry_base(
                            path@,
                            match info {
                                Some(ref i) => Some(
                                    crate::info::InfoI {
                                        name: i.name@,
                                        tags: i.tags@.map_values(|s: String| s@),
                                        categories: i.categories@.map_values(|s: String| s@),
                                    },
                                ),
                                None => None,
                            },
                        ) + "."@ + low && (match info {
                            Some(ref i) => e@.tags == i.tags@.map_values(|s: String| s@)
                                && e@.categories == i.categories@.map_values(|s: String| s@),
                            None => e@.tags.len() == 0 && e@.categories.len() == 0,
                        }),
                    }
                },
            }
        }),
{
    let ext = match crate::text::path_extension_lower(path.as_str()) {
        Some(e) => e,
        None => {
            return None;
        },
    };
    let asset_type = match AssetType::from_extension(ext.as_str()) {
        Some(t) => {
            proof {
                crate::text::lemma_lower_idempotent(
                    crate::text::spec_ext_of_name(
                        crate::text::spec_file_name(path@),
                    ).unwrap(),
                );
            }
            t
        },
        None => {
            proof {
                crate::text::lemma_lower_idempotent(
                    crate::text::spec_ext_of_name(
                        crate::text::spec_file_name(path@),
                    ).unwrap(),
                );
            }
            return None;
        },
    };
    let (base, tags, categories) = match info {
        Some(i) => (i.name, i.tags, i.categories),
        None => (crate::text::path_file_stem(path.as_str()), Vec::new(), Vec::new()),
    };
    let name = base.concat(".").concat(ext.as_str());
    Some(AssetEntry { path, name, extension: ext, asset_type, tags, categories })
}

/// Entry `a` precedes entry `b` in the requested direction: ascending
/// compares folded names lexicographically, descending reverses it.
pub open spec fn spec_entry_lt(a: AssetEntryI, b: AssetEntryI, ascending: bool) -> bool {
    if ascending {
        spec_lex_lt(spec_lower(a.name), spec_lower(b.name))
    } else {
        spec_lex_lt(spec_lower(b.name), spec_lower(a.name))
    }
}

/// The entries are in order: no later entry strictly precedes an earlier one.
pub open spec fn spec_entries_sorted(s: Seq<AssetEntryI>, ascending: bool) -> bool {
    forall|i: int, j: int|
        0 <= i < j < s.len() ==> !spec_entry_lt(#[trigger] s[j], #[trigger] s[i], ascending)
}

/// Two texts agree code point by code point.
pub open spec fn spec_cp_eq(a: Seq<char>, b: Seq<char>) -> bool {
    a.len() == b.len() && forall|i: int| 0 <= i < a.len() ==> (#[trigger] a[i]) as u32 == (
    #[trigger] b[i]) as u32
}

proof fn lemma_lex_connex(a: Seq<char>, b: Seq<char>)
    ensures
        spec_lex_lt(a, b) || spec_lex_lt(b, a) || spec_cp_eq(a, b),
    decreases a.len(),
{
    if a.len() > 0 && b.len() > 0 && !((a[0] as u32) < (b[0] as u32)) && !((a[0] as u32) > (
    b[0] as u32)) {
        lemma_lex_connex(a.drop_first(), b.drop_first());
        if !spec_lex_lt(a, b) && !spec_lex_lt(b, a) {
            assert(spec_cp_eq(a.drop_first(), b.drop_first()));
            assert forall|i: int| 0 <= i < a.len() implies (#[trigger] a[i]) as u32 == (
            #[trigger] b[i]) as u32 by {
                if i > 0 {
                    assert(a[i] == a.drop_first()[i - 1]);
                    assert(b[i] == b.drop_first()[i - 1]);
                    assert(a.drop_first()[i - 1] as u32 == b.drop_first()[i - 1] as u32);
                }
            }
        }
    }
}

proof fn lemma_lex_trans(a: Seq<char>, b: Seq<char>, c: Seq<char>)
    requires
        spec_lex_lt(a, b),
        spec_lex_lt(b, c),
    ensures
        spec_lex_lt(a, c),
    decreases a.len(),
{
    if a.len() > 0 && b.len() > 0 && c.len() > 0 {
        if (a[0] as u32) == (b[0] as u32) && (b[0] as u32) == (c[0] as u32) {
            lemma_lex_trans(a.drop_first(), b.drop_first(), c.drop_first());
        }
    }
}

/// The order only reads code points, so it respects code-point equality.
proof fn lemma_lex_subst_left(a: Seq<char>, a2: Seq<char>, c: Seq<char>)
    requires
        spec_cp_eq(a, a2),
        spec_lex_lt(a2, c),
    ensures
        spec_lex_lt(a, c),
    decreases a.len(),
{
    if a2.len() > 0 && c.len() > 0 {
        assert(a[0] as u32 == a2[0] as u32);
        if (a2[0] as u32) == (c[0] as u32) {
            assert(spec_cp_eq(a.drop_first(), a2.drop_first())) by {
                assert forall|i: int|
                    0 <= i < a.drop_first().len() implies (#[trigger] a.drop_first()[i]) as u32
                    == (#[trigger] a2.drop_first()[i]) as u32 by {
                    assert(a.drop_first()[i] == a[i + 1]);
                    assert(a2.drop_first()[i] == a2[i + 1]);
                    assert(a[i + 1] as u32 == a2[i + 1] as u32);
                }
            }
            lemma_lex_subst_left(a.drop_first(), a2.drop_first(), c.drop_first());
        }
    }
}

proof fn lemma_lex_irrefl(a: Seq<char>)
    ensures
        !spec_lex_lt(a, a),
    decreases a.len(),
{
    if a.len() > 0 {
        lemma_lex_irrefl(a.drop_first());
    }
}

/// Sort the entries by folded name, ascending or descending.  The result
/// holds the same entries, in order.
pub fn sort_entries(entries: &mut Vec<AssetEntry>, ascending: bool)
    ensures
        final(entries)@.map_values(|e: AssetEntry| e@).to_multiset() =~= old(
            entries,
        )@.map_values(|e: AssetEntry| e@).to_multiset(),
        spec_entries_sorted(final(entries)@.map_values(|e: AssetEntry| e@), ascending),
{
    broadcast use vstd::seq_lib::group_to_multiset_ensures;

    let ghost orig = entries@.map_values(|e: AssetEntry| e@);
    let mut out: Vec<AssetEntry> = Vec::new();
    proof {
        assert(out@.map_values(|e: AssetEntry| e@) =~= Seq::<AssetEntryI>::empty());
        assert(out@.map_values(|e: AssetEntry| e@).to_multiset().add(orig.to_multiset())
            =~= orig.to_multiset());
    }
    loop
        invariant
            out@.map_values(|e: AssetEntry| e@).to_multiset().add(
                entries@.map_values(|e: AssetEntry| e@).to_multiset(),
            ) =~= orig.to_multiset(),
            spec_entries_sorted(out@.map_values(|e: AssetEntry| e@), ascending),
        ensures
            entries@.len() == 0,
            out@.map_values(|e: AssetEntry| e@).to_multiset() =~= orig.to_multiset(),
            spec_entries_sorted(out@.map_values(|e: AssetEntry| e@), ascending),
        decreases entries@.len(),
    {
        broadcast use vstd::seq_lib::group_to_multiset_ensures;

        let ghost rv = entries@.map_values(|e: AssetEntry| e@);
        let ghost before_out = out@.map_values(|e: AssetEntry| e@);
        let next = match entries.pop() {
            Some(e) => e,
            None => {
                proof {
                    assert(entries@.map_values(|e: AssetEntry| e@) =~= Seq::<
                        AssetEntryI,
                    >::empty());
                    assert(out@.map_values(|e: AssetEntry| e@).to_multiset().add(
                        Seq::<AssetEntryI>::empty().to_multiset(),
                    ) =~= out@.map_values(|e: AssetEntry| e@).to_multiset());
                }
                break ;
            },
        };
        proof {
            assert(entries@.map_values(|e: AssetEntry| e@) =~= rv.drop_last());
            assert(rv =~= rv.drop_last().push(next@));
            assert(rv.to_multiset() =~= rv.drop_last().to_multiset().insert(next@));
        }
        insert_sorted(&mut out, next, ascending);
        proof {
            let ov2 = out@.map_values(|e: AssetEntry| e@);
            assert(ov2.to_multiset() =~= before_out.to_multiset().insert(next@));
            assert(ov2.to_multiset().add(rv.drop_last().to_multiset()) =~= orig.to_multiset())
                by {
                broadcast use vstd::multiset::group_multiset_axioms;

                assert(before_out.to_multiset().insert(next@).add(
                    rv.drop_last().to_multiset(),
                ) =~= before_out.to_multiset().add(rv.drop_last().to_multiset().insert(next@)));
            }
        }
    }
    let mut final_out = out;
    core::mem::swap(entries, &mut final_out);
}

/// Insert one entry into an already ordered vector, keeping the order.
fn insert_sorted(entries: &mut Vec<AssetEntry>, item: AssetEntry, ascending: bool)
    requires
        spec_entries_sorted(old(entries)@.map_values(|e: AssetEntry| e@), ascending),
    ensures
        final(entries)@.map_values(|e: AssetEntry| e@).to_multiset() =~= old(
            entries,
        )@.map_values(|e: AssetEntry| e@).to_multiset().insert(item@),
        spec_entries_sorted(final(entries)@.map_values(|e: AssetEntry| e@), ascending),
{
    broadcast use vstd::seq_lib::group_to_multiset_ensures;

    let ghost ov = entries@.map_values(|e: AssetEntry| e@);
    let ghost itemv = item@;
    let n = entries.len();
    let mut i: usize = 0;
    while i < n
        invariant
            ov == old(entries)@.map_values(|e: AssetEntry| e@),
            entries@.map_values(|e: AssetEntry| e@) == ov,
            itemv == item@,
            n == entries@.len(),
            i <= n,
            spec_entries_sorted(ov, ascending),
            forall|j: int| 0 <= j < i ==> spec_entry_lt(#[trigger] ov[j], itemv, ascending),
        decreases n - i,
    {
        let stop = if ascending {
            !lt_lower(entries[i].name.as_str(), item.name.as_str())
        } else {
            !lt_lower(item.name.as_str(), entries[i].name.as_str())
        };
        proof {
            assert(ov[i as int] == entries@[i as int]@);
        }
        if stop {
            entries.insert(i, item);
            proof {
                broadcast use vstd::seq_lib::group_to_multiset_ensures;

                let nv = entries@.map_values(|e: AssetEntry| e@);
                assert(nv =~= ov.insert(i as int, itemv));
                assert(nv.to_multiset() =~= ov.to_multiset().insert(itemv));
                assert forall|x: int, y: int|
                    0 <= x < y < nv.len() implies !spec_entry_lt(
                    #[trigger] nv[y],
                    #[trigger] nv[x],
                    ascending,
                ) by {
                    lemma_sorted_after_insert(ov, itemv, i as int, x, y, ascending);
                }
            }
            return ;
        }
        i = i + 1;
    }
    entries.push(item);
    proof {
        broadcast use vstd::seq_lib::group_to_multiset_ensures;

        let nv = entries@.map_values(|e: AssetEntry| e@);
        assert(nv =~= ov.push(itemv));
        assert(nv =~= ov.insert(n as int, itemv));
        assert(nv.to_multiset() =~= ov.to_multiset().insert(itemv));
        assert forall|x: int, y: int|
            0 <= x < y < nv.len() implies !spec_entry_lt(
            #[trigger] nv[y],
            #[trigger] nv[x],
            ascending,
        ) by {
            lemma_sorted_after_insert(ov, itemv, n as int, x, y, ascending);
        }
    }
}

/// Inserting `v` at the first position whose entry does not strictly
/// precede it keeps the order.
proof fn lemma_sorted_after_insert(
    s: Seq<AssetEntryI>,
    v: AssetEntryI,
    i: int,
    x: int,
    y: int,
    ascending: bool,
)
    requires
        spec_entries_sorted(s, ascending),
        0 <= i <= s.len(),
        forall|j: int| 0 <= j < i ==> spec_entry_lt(#[trigger] s[j], v, ascending),
        i < s.len() ==> !spec_entry_lt(s[i], v, ascending),
        0 <= x < y < s.insert(i, v).len(),
    ensures
        !spec_entry_lt(s.insert(i, v)[y], s.insert(i, v)[x], ascending),
{
    let nv = s.insert(i, v);
    if y == i {
        // nv[y] is v and nv[x] == s[x] with x < i, which strictly precedes v
        assert(nv[x] == s[x]);
        if spec_entry_lt(v, s[x], ascending) {
            let (ka, kb) = if ascending {
                (spec_lower(s[x].name), spec_lower(v.name))
            } else {
                (spec_lower(v.name), spec_lower(s[x].name))
            };
            lemma_lex_trans(ka, kb, ka);
            lemma_lex_irrefl(ka);
        }
    } else if x == i {
        // nv[x] is v; nv[y] == s[y-1] does not strictly precede v
        assert(nv[y] == s[y - 1]);
        let o = s[y - 1];
        if spec_entry_lt(o, v, ascending) {
            if y - 1 == i {
                assert(!spec_entry_lt(s[i], v, ascending));
            } else {
                assert(!spec_entry_lt(o, s[i], ascending));
                let ko = spec_lower(o.name);
                let ki = spec_lower(s[i].name);
                let kv = spec_lower(v.name);
                if ascending {
                    // have lt(ko, kv), not lt(ko, ki), not lt(ki, kv)
                    lemma_lex_connex(ko, ki);
                    if spec_lex_lt(ki, ko) {
                        lemma_lex_trans(ki, ko, kv);
                    } else {
                        lemma_lex_subst_left(ki, ko, kv);
                    }
                } else {
                    // have lt(kv, ko), not lt(ki, ko), not lt(kv, ki)
                    lemma_lex_connex(ko, ki);
                    if spec_lex_lt(ko, ki) {
                        lemma_lex_trans(kv, ko, ki);
                    } else {
                        // cp_eq(ko, ki): lt(kv, ko) gives lt(kv, ki)... via right subst
                        lemma_lex_subst_right(kv, ko, ki);
                    }
                }
            }
        }
    } else if y < i {
        assert(nv[x] == s[x] && nv[y] == s[y]);
    } else if x > i {
        assert(nv[x] == s[x - 1] && nv[y] == s[y - 1]);
    } else {
        assert(nv[x] == s[x] && nv[y] == s[y - 1]);
        if y - 1 == x {
            lemma_lex_irrefl(spec_lower(s[x].name));
        }
    }
}

/// The order also respects code-point equality on its right argument.
proof fn lemma_lex_subst_right(a: Seq<char>, c: Seq<char>, c2: Seq<char>)
    requires
        spec_cp_eq(c, c2),
        spec_lex_lt(a, c),
    ensures
        spec_lex_lt(a, c2),
    decreases a.len(),
{
    if a.len() > 0 && c.len() > 0 {
        assert(c[0] as u32 == c2[0] as u32);
        if (a[0] as u32) == (c[0] as u32) {
            assert(spec_cp_eq(c.drop_first(), c2.drop_first())) by {
                assert forall|i: int|
                    0 <= i < c.drop_first().len() implies (#[trigger] c.drop_first()[i]) as u32
                    == (#[trigger] c2.drop_first()[i]) as u32 by {
                    assert(c.drop_first()[i] == c[i + 1]);
                    assert(c2.drop_first()[i] == c2[i + 1]);
                    assert(c[i + 1] as u32 == c2[i + 1] as u32);
                }
            }
            lemma_lex_subst_right(a.drop_first(), c.drop_first(), c2.drop_first());
        }
    }
}

} // verus!
