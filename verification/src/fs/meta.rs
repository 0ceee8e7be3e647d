//! Folder metadata (`.meta.jsonl`): the last line wins.
use vstd::prelude::*;

use crate::types::MetaEntry;

verus! {

/// The description that stands for a folder whose metadata lines are `entries`:
/// that of the last entry, none when there is none.
pub open spec fn latest_description(entries: Seq<MetaEntry>) -> Option<Seq<char>> {
    if entries.len() == 0 {
        None
    } else {
        Some(entries.last().description@)
    }
}

/// Get the latest (last valid line) description for a folder, given the entries read
/// from its `.meta.jsonl` in file order. "Last line wins" semantics.
pub fn get_latest_description(entries: &Vec<MetaEntry>) -> (r: Option<String>)
    ensures
        r matches Some(d) ==> latest_description(entries@) == Some(d@),
        r is None ==> latest_description(entries@) is None,
{
    if entries.len() == 0 {
        None
    } else {
        Some(entries[entries.len() - 1].description.clone())
    }
}

/// Last line wins: after a new entry is appended, the folder's description is the new
/// entry's, whatever came before.
pub proof fn lemma_last_line_wins(entries: Seq<MetaEntry>, entry: MetaEntry)
    ensures
        latest_description(entries.push(entry)) == Some(entry.description@),
{
}

/// Appending never loses history: the entries that were there stay, in order, in front
/// of the new one.
pub proof fn lemma_meta_append_preserves(entries: Seq<MetaEntry>, entry: MetaEntry)
    ensures
        entries.push(entry).take(entries.len() as int) == entries,
        entries.push(entry).len() == entries.len() + 1,
{
    assert(entries.push(entry).take(entries.len() as int) =~= entries);
}

} // verus!
