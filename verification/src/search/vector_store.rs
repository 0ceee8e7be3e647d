//! The folders of the embedding index: which folder each slot holds. The vectors and the
//! nearest-neighbour graph are kept beside it by the store, slot for slot.
use vstd::prelude::*;

use crate::fs::projection::str_eq;

verus! {

/// Metadata for each indexed folder.
#[derive(Debug, Clone, PartialEq, Eq)]
pub struct IndexEntry {
    pub path: String,
    pub description: String,
}

/// The indexed folders, slot by slot.
#[derive(Debug, Clone, PartialEq, Eq)]
pub struct FolderIndex {
    pub entries: Vec<IndexEntry>,
}

/// The paths of the entries.
pub open spec fn entry_paths(es: Seq<IndexEntry>) -> Seq<Seq<char>> {
    es.map_values(|e: IndexEntry| e.path@)
}

/// No two slots hold the same folder.
pub open spec fn paths_distinct(es: Seq<IndexEntry>) -> bool {
    forall|i: int, j: int| 0 <= i < j < es.len() ==> (#[trigger] es[i]).path@ != (#[trigger] es[j]).path@
}

/// What inserting a folder did: which slot it updated or filled.
#[derive(Debug, Clone, Copy, PartialEq, Eq, Structural)]
pub enum SlotChange {
    Updated(usize),
    Appended(usize),
}

/// `after` is `before` with the folder `path` inserted with `description`, as `change`
/// says: the description replaced in the first slot holding `path`, or a new slot
/// appended when none does.
pub open spec fn insert_is(
    before: Seq<IndexEntry>,
    after: Seq<IndexEntry>,
    change: SlotChange,
    path: String,
    description: String,
) -> bool {
    match change {
        SlotChange::Updated(i) => {
            &&& i < before.len()
            &&& before[i as int].path@ == path@
            &&& forall|j: int| 0 <= j < i ==> (#[trigger] before[j]).path@ != path@
            &&& after == before.update(i as int, IndexEntry { path: before[i as int].path, description })
        },
        SlotChange::Appended(i) => {
            &&& i == before.len()
            &&& forall|j: int| 0 <= j < before.len() ==> (#[trigger] before[j]).path@ != path@
            &&& after == before.push(IndexEntry { path, description })
        },
    }
}

/// `after` is `before` without the first slot holding `path`, as `removed` says, or
/// unchanged when no slot holds it.
pub open spec fn removal_is(before: Seq<IndexEntry>, after: Seq<IndexEntry>, removed: Option<usize>, path: Seq<char>) -> bool {
    match removed {
        None => after == before && forall|i: int| 0 <= i < before.len() ==> (#[trigger] before[i]).path@ != path,
        Some(i) => {
            &&& i < before.len()
            &&& before[i as int].path@ == path
            &&& forall|j: int| 0 <= j < i ==> (#[trigger] before[j]).path@ != path
            &&& after == before.remove(i as int)
        },
    }
}

/// The slots left after a removal that reported `removed`.
pub open spec fn after_removal(before: Seq<IndexEntry>, removed: Option<usize>) -> Seq<IndexEntry> {
    match removed {
        None => before,
        Some(i) => before.remove(i as int),
    }
}

impl FolderIndex {
    /// An empty index.
    pub fn new() -> (r: Self)
        ensures
            r.entries@.len() == 0,
    {
        FolderIndex { entries: Vec::new() }
    }

    /// The index holding `entries`, slot for slot.
    pub fn from_entries(entries: Vec<IndexEntry>) -> (r: Self)
        ensures
            r.entries == entries,
    {
        FolderIndex { entries }
    }

    /// The first slot holding `path`.
    pub fn position(&self, path: &str) -> (r: Option<usize>)
        ensures
            r is None ==> forall|i: int| 0 <= i < self.entries.len() ==> (#[trigger] self.entries@[i]).path@ != path@,
            r matches Some(i) ==> i < self.entries.len() && self.entries@[i as int].path@ == path@
                && forall|j: int| 0 <= j < i ==> (#[trigger] self.entries@[j]).path@ != path@,
    {
        let mut i: usize = 0;
        while i < self.entries.len()
            invariant
                i <= self.entries.len(),
                forall|j: int| 0 <= j < i ==> (#[trigger] self.entries@[j]).path@ != path@,
            decreases self.entries.len() - i,
        {
            if str_eq(self.entries[i].path.as_str(), path) {
                return Some(i);
            }
            i = i + 1;
        }
        None
    }

    /// Insert a folder: when a slot already holds `path`, its description is replaced
    /// there; otherwise a new slot is appended. Returns the slot whose vector is to be set.
    pub fn insert(&mut self, path: String, description: String) -> (r: SlotChange)
        ensures
            insert_is(old(self).entries@, final(self).entries@, r, path, description),
    {
        match self.position(path.as_str()) {
            Some(i) => {
                let p = self.entries[i].path.clone();
                self.entries.set(i, IndexEntry { path: p, description });
                SlotChange::Updated(i)
            },
            None => {
                let i = self.entries.len();
                self.entries.push(IndexEntry { path, description });
                SlotChange::Appended(i)
            },
        }
    }

    /// Remove a folder from the index by path: the first slot holding it goes, the later
    /// slots move down by one. Returns the slot removed.
    pub fn remove(&mut self, path: &str) -> (r: Option<usize>)
        ensures
            removal_is(old(self).entries@, final(self).entries@, r, path@),
    {
        match self.position(path) {
            Some(i) => {
                self.entries.remove(i);
                Some(i)
            },
            None => None,
        }
    }

    /// The index restored from a saved catalog and the number of saved vectors: the
    /// catalog when the two agree slot for slot, an empty index when they do not (the
    /// index is then rebuilt from the folders' metadata).
    pub fn restore(entries: Vec<IndexEntry>, vector_count: usize) -> (r: Self)
        ensures
            r.entries@ == if entries.len() == vector_count {
                entries@
            } else {
                Seq::<IndexEntry>::empty()
            },
    {
        if entries.len() == vector_count {
            FolderIndex { entries }
        } else {
            FolderIndex { entries: Vec::new() }
        }
    }

    /// Count of indexed entries.
    pub fn len(&self) -> (r: usize)
        ensures
            r == self.entries.len(),
    {
        self.entries.len()
    }

    /// Whether no folder is indexed.
    pub fn is_empty(&self) -> (r: bool)
        ensures
            r == (self.entries.len() == 0),
    {
        self.entries.len() == 0
    }
}

/// Inserting keeps the folders distinct, and the folder is then held, with the new
/// description, exactly once.
pub proof fn lemma_insert_keeps_distinct(
    before: Seq<IndexEntry>,
    after: Seq<IndexEntry>,
    change: SlotChange,
    path: String,
    description: String,
)
    requires
        paths_distinct(before),
        insert_is(before, after, change, path, description),
    ensures
        paths_distinct(after),
        exists|i: int| 0 <= i < after.len() && (#[trigger] after[i]).path@ == path@ && after[i].description == description,
        after.len() == before.len() + (if change is Appended { 1int } else { 0int }),
{
    match change {
        SlotChange::Updated(i) => {
            assert(after[i as int].path@ == path@);
        },
        SlotChange::Appended(i) => {
            assert(after[i as int].path@ == path@);
        },
    }
}

/// Removing a folder from an index of distinct folders leaves it out entirely and keeps
/// the others distinct.
pub proof fn lemma_remove_drops_folder(before: Seq<IndexEntry>, i: int, path: Seq<char>)
    requires
        paths_distinct(before),
        0 <= i < before.len(),
        before[i].path@ == path,
    ensures
        paths_distinct(before.remove(i)),
        forall|j: int| 0 <= j < before.remove(i).len() ==> (#[trigger] before.remove(i)[j]).path@ != path,
        before.remove(i).len() == before.len() - 1,
{
    let after = before.remove(i);
    assert forall|j: int| 0 <= j < after.len() implies (#[trigger] after[j]).path@ != path by {
        if j < i {
            assert(after[j] == before[j]);
        } else {
            assert(after[j] == before[j + 1]);
        }
    }
    assert forall|a: int, b: int| 0 <= a < b < after.len() implies (#[trigger] after[a]).path@ != (#[trigger] after[b]).path@ by {
        let a0 = if a < i { a } else { a + 1 };
        let b0 = if b < i { b } else { b + 1 };
        assert(after[a] == before[a0]);
        assert(after[b] == before[b0]);
    }
}

} // verus!
