//! The atmosphere cycle and the custom skybox catalog.
//!
//! Custom skyboxes are an append-only registry keyed by source identity:
//! re-loading a skybox whose path (or, for byte-sourced skyboxes, whose
//! name) is already present selects the existing entry instead of
//! appending a duplicate.  At most one entry is selected at a time.

use vstd::prelude::*;

verus! {

/// The active sky source: a loaded HDR image or one of the built-in
/// procedural sky models.
#[derive(Clone, Copy, Debug, PartialEq, Eq, Structural)]
pub enum Atmosphere {
    Hdr,
    Dawn,
    Day,
    Dusk,
    Night,
}

/// The successor of an atmosphere in the cycle.
pub open spec fn spec_next_atmosphere(a: Atmosphere) -> Atmosphere {
    match a {
        Atmosphere::Hdr => Atmosphere::Dawn,
        Atmosphere::Dawn => Atmosphere::Day,
        Atmosphere::Day => Atmosphere::Dusk,
        Atmosphere::Dusk => Atmosphere::Night,
        Atmosphere::Night => Atmosphere::Hdr,
    }
}

/// The predecessor of an atmosphere in the cycle.
pub open spec fn spec_previous_atmosphere(a: Atmosphere) -> Atmosphere {
    match a {
        Atmosphere::Hdr => Atmosphere::Night,
        Atmosphere::Dawn => Atmosphere::Hdr,
        Atmosphere::Day => Atmosphere::Dawn,
        Atmosphere::Dusk => Atmosphere::Day,
        Atmosphere::Night => Atmosphere::Dusk,
    }
}

impl Atmosphere {
    /// Every atmosphere other than the HDR slot is procedurally generated.
    pub fn is_procedural(&self) -> (r: bool)
        ensures
            r == (*self != Atmosphere::Hdr),
    {
        !(*self == Atmosphere::Hdr)
    }

    pub fn next(&self) -> (r: Atmosphere)
        ensures
            r == spec_next_atmosphere(*self),
    {
        match self {
            Atmosphere::Hdr => Atmosphere::Dawn,
            Atmosphere::Dawn => Atmosphere::Day,
            Atmosphere::Day => Atmosphere::Dusk,
            Atmosphere::Dusk => Atmosphere::Night,
            Atmosphere::Night => Atmosphere::Hdr,
        }
    }

    pub fn previous(&self) -> (r: Atmosphere)
        ensures
            r == spec_previous_atmosphere(*self),
    {
        match self {
            Atmosphere::Hdr => Atmosphere::Night,
            Atmosphere::Dawn => Atmosphere::Hdr,
            Atmosphere::Day => Atmosphere::Dawn,
            Atmosphere::Dusk => Atmosphere::Day,
            Atmosphere::Night => Atmosphere::Dusk,
        }
    }
}

/// One registered custom skybox.  An empty path means the skybox arrived
/// as transient bytes and has no stable source identity beyond its name.
#[derive(Debug)]
pub struct SkyboxEntry {
    pub name: String,
    pub path: String,
}

/// Mathematical image of a catalog entry.
pub struct SkyboxEntryI {
    pub name: Seq<char>,
    pub path: Seq<char>,
}

impl View for SkyboxEntry {
    type V = SkyboxEntryI;

    open spec fn view(&self) -> SkyboxEntryI {
        SkyboxEntryI { name: self.name@, path: self.path@ }
    }
}

/// The append-only skybox registry with its current selection.
#[derive(Debug)]
pub struct SkyboxCatalog {
    pub entries: Vec<SkyboxEntry>,
    pub selected: Option<usize>,
}

/// Mathematical image of the catalog.
pub struct CatalogI {
    pub entries: Seq<SkyboxEntryI>,
    pub selected: Option<int>,
}

impl View for SkyboxCatalog {
    type V = CatalogI;

    open spec fn view(&self) -> CatalogI {
        CatalogI {
            entries: self.entries@.map_values(|e: SkyboxEntry| e@),
            selected: match self.selected {
                Some(i) => Some(i as int),
                None => None,
            },
        }
    }
}

/// The first entry whose path matches, searching from index `i`.
pub open spec fn spec_find_path_from(s: Seq<SkyboxEntryI>, path: Seq<char>, i: int) -> Option<int>
    decreases s.len() - i,
{
    if i < 0 || i >= s.len() {
        None
    } else if s[i].path == path {
        Some(i)
    } else {
        spec_find_path_from(s, path, i + 1)
    }
}

/// The first entry whose path matches.
pub open spec fn spec_find_path(s: Seq<SkyboxEntryI>, path: Seq<char>) -> Option<int> {
    spec_find_path_from(s, path, 0)
}

/// The first entry whose name matches, searching from index `i`.
pub open spec fn spec_find_name_from(s: Seq<SkyboxEntryI>, name: Seq<char>, i: int) -> Option<int>
    decreases s.len() - i,
{
    if i < 0 || i >= s.len() {
        None
    } else if s[i].name == name {
        Some(i)
    } else {
        spec_find_name_from(s, name, i + 1)
    }
}

/// The first entry whose name matches.
pub open spec fn spec_find_name(s: Seq<SkyboxEntryI>, name: Seq<char>) -> Option<int> {
    spec_find_name_from(s, name, 0)
}

impl SkyboxCatalog {
    pub open spec fn wf(&self) -> bool {
        match self@.selected {
            Some(i) => 0 <= i < self@.entries.len(),
            None => true,
        }
    }

    pub fn new() -> (r: SkyboxCatalog)
        ensures
            r@.entries.len() == 0,
            r@.selected is None,
            r.wf(),
    {
        SkyboxCatalog { entries: Vec::new(), selected: None }
    }

    /// Register or re-select a skybox loaded from a path.  A matching path
    /// selects the existing entry; otherwise a new entry is appended and
    /// selected.  Returns the selected index.
    pub fn load_path(&mut self, name: String, path: String) -> (idx: usize)
        requires
            old(self).wf(),
        ensures
            match spec_find_path(old(self)@.entries, path@) {
                Some(i) => {
                    &&& final(self)@.entries == old(self)@.entries
                    &&& idx as int == i
                },
                None => {
                    &&& final(self)@.entries == old(self)@.entries.push(
                        SkyboxEntryI { name: name@, path: path@ },
                    )
                    &&& idx as int == old(self)@.entries.len()
                },
            },
            final(self)@.selected == Some(idx as int),
            final(self).wf(),
    {
        let n = self.entries.len();
        let ghost ev = self@.entries;
        let mut i: usize = 0;
        while i < n
            invariant
                ev == old(self)@.entries,
                n == self.entries@.len(),
                ev == self@.entries,
                i <= n,
                spec_find_path_from(ev, path@, 0) == spec_find_path_from(ev, path@, i as int),
            decreases n - i,
        {
            if self.entries[i].path == path {
                proof {
                    assert(ev[i as int] == self.entries@[i as int]@);
                    assert(spec_find_path_from(ev, path@, i as int) == Some(i as int));
                }
                self.selected = Some(i);
                return i;
            }
            proof {
                assert(ev[i as int] == self.entries@[i as int]@);
            }
            i = i + 1;
        }
        self.entries.push(SkyboxEntry { name, path });
        self.selected = Some(n);
        proof {
            assert(self@.entries =~= ev.push(
                SkyboxEntryI {
                    name: self.entries@[n as int].name@,
                    path: self.entries@[n as int].path@,
                },
            ));
        }
        n
    }

    /// Register or re-select a byte-sourced skybox by display name: a
    /// matching name selects the existing entry; otherwise a new entry
    /// with an empty path is appended and selected.  Returns the index.
    pub fn load_bytes(&mut self, name: String) -> (idx: usize)
        requires
            old(self).wf(),
        ensures
            match spec_find_name(old(self)@.entries, name@) {
                Some(i) => {
                    &&& final(self)@.entries == old(self)@.entries
                    &&& idx as int == i
                },
                None => {
                    &&& final(self)@.entries == old(self)@.entries.push(
                        SkyboxEntryI { name: name@, path: Seq::<char>::empty() },
                    )
                    &&& idx as int == old(self)@.entries.len()
                },
            },
            final(self)@.selected == Some(idx as int),
            final(self).wf(),
    {
        let n = self.entries.len();
        let ghost ev = self@.entries;
        let mut i: usize = 0;
        while i < n
            invariant
                ev == old(self)@.entries,
                n == self.entries@.len(),
                ev == self@.entries,
                i <= n,
                spec_find_name_from(ev, name@, 0) == spec_find_name_from(ev, name@, i as int),
            decreases n - i,
        {
            if self.entries[i].name == name {
                proof {
                    assert(ev[i as int] == self.entries@[i as int]@);
                    assert(spec_find_name_from(ev, name@, i as int) == Some(i as int));
                }
                self.selected = Some(i);
                return i;
            }
            proof {
                assert(ev[i as int] == self.entries@[i as int]@);
            }
            i = i + 1;
        }
        self.entries.push(SkyboxEntry { name, path: String::new() });
        self.selected = Some(n);
        proof {
            assert(self.entries@[n as int].path@ =~= Seq::<char>::empty());
            assert(self@.entries =~= ev.push(
                SkyboxEntryI { name: self.entries@[n as int].name@, path: Seq::<char>::empty() },
            ));
        }
        n
    }

    /// Drop the selection (a procedural or default atmosphere became active).
    pub fn deselect(&mut self)
        ensures
            final(self)@.entries == old(self)@.entries,
            final(self)@.selected is None,
            final(self).wf(),
    {
        self.selected = None;
    }
}

/// Loading the same path twice appends exactly one entry and selects the
/// same index both times.
pub proof fn lemma_skybox_dedup(entries: Seq<SkyboxEntryI>, name: Seq<char>, path: Seq<char>)
    requires
        spec_find_path(entries, path) is None,
    ensures
        spec_find_path(entries.push(SkyboxEntryI { name, path }), path) == Some(
            entries.len() as int,
        ),
{
    lemma_find_path_push(entries, name, path, 0);
}

proof fn lemma_find_path_push(entries: Seq<SkyboxEntryI>, name: Seq<char>, path: Seq<char>, i: int)
    requires
        0 <= i <= entries.len(),
        spec_find_path_from(entries, path, i) is None,
    ensures
        spec_find_path_from(entries.push(SkyboxEntryI { name, path }), path, i) == Some(
            entries.len() as int,
        ),
    decreases entries.len() - i,
{
    let pushed = entries.push(SkyboxEntryI { name, path });
    if i < entries.len() {
        lemma_find_path_push(entries, name, path, i + 1);
    } else {
        assert(pushed[i] == SkyboxEntryI { name, path });
    }
}

} // verus!
