//! Moving a folder: what the embedding index's catalog does about it.
use vstd::prelude::*;

use crate::error::PhronesisError;
use crate::text::{concat, copy_str};
use crate::types::MoveResult;
use crate::search::vector_store::{
    after_removal, insert_is, lemma_insert_keeps_distinct, lemma_remove_drops_folder,
    paths_distinct, removal_is, FolderIndex, SlotChange,
};

verus! {

/// The answer to a move of `old_path` to `new_path` (both relative to the data root), once
/// it is known whether the source exists: a missing source is not found.
pub fn move_outcome(old_path: &str, new_path: &str, source_exists: bool) -> (r: Result<MoveResult, PhronesisError>)
    ensures
        r is Ok <==> source_exists,
        r matches Ok(m) ==> m.old_path@ == old_path@ && m.new_path@ == new_path@,
        r matches Err(e) ==> e == PhronesisError::NotFound(e->NotFound_0)
            && e->NotFound_0@ == "Source not found: "@ + old_path@,
{
    if !source_exists {
        return Err(PhronesisError::NotFound(concat("Source not found: ", old_path)));
    }
    Ok(MoveResult { old_path: copy_str(old_path), new_path: copy_str(new_path) })
}

/// Updates the catalog after the folder `old_path` was moved to `new_path`: the old path
/// leaves the catalog, and the new one enters it with `description`, the latest
/// description found in the moved folder, when there is one. Returns the slot removed and
/// the slot whose vector is to be set.
///
/// On a catalog of distinct folders the catalog stays so, the new path is then held with
/// the description, and the old path is held no more (unless the folder was moved onto
/// itself and re-entered).
pub fn reindex_moved_folder(
    index: &mut FolderIndex,
    old_path: &str,
    new_path: String,
    description: Option<String>,
) -> (r: (Option<usize>, Option<SlotChange>))
    ensures
        removal_is(old(index).entries@, after_removal(old(index).entries@, r.0), r.0, old_path@),
        description is None ==> r.1 is None && final(index).entries@ == after_removal(
            old(index).entries@,
            r.0,
        ),
        description matches Some(d) ==> (r.1 matches Some(c) && insert_is(
            after_removal(old(index).entries@, r.0),
            final(index).entries@,
            c,
            new_path,
            d,
        )),
        paths_distinct(old(index).entries@) ==> paths_distinct(final(index).entries@),
        paths_distinct(old(index).entries@) ==> (description matches Some(d) ==> exists|i: int|
            0 <= i < final(index).entries.len() && (#[trigger] final(index).entries@[i]).path@
                == new_path@ && final(index).entries@[i].description == d),
        paths_distinct(old(index).entries@) ==> (description is None || old_path@ != new_path@)
            ==> forall|i: int|
            0 <= i < final(index).entries.len() ==> (#[trigger] final(index).entries@[i]).path@
                != old_path@,
{
    let ghost before = index.entries@;
    let removed = index.remove(old_path);
    let ghost mid = index.entries@;
    proof {
        if paths_distinct(before) {
            if let Some(i) = removed {
                lemma_remove_drops_folder(before, i as int, old_path@);
            }
        }
    }
    match description {
        None => (removed, None),
        Some(d) => {
            let c = index.insert(new_path, d);
            proof {
                if paths_distinct(before) {
                    lemma_insert_keeps_distinct(mid, index.entries@, c, new_path, d);
                    if old_path@ != new_path@ {
                        let after = index.entries@;
                        assert forall|i: int| 0 <= i < after.len() implies (#[trigger] after[i]).path@
                            != old_path@ by {
                            match c {
                                SlotChange::Updated(k) => {
                                    if i != k {
                                        assert(after[i] == mid[i]);
                                    }
                                },
                                SlotChange::Appended(k) => {
                                    if i < k {
                                        assert(after[i] == mid[i]);
                                    }
                                },
                            }
                        }
                    }
                }
            }
            (removed, Some(c))
        },
    }
}

} // verus!
