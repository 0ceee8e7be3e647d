//! Renaming an action file in place.
use vstd::prelude::*;

use crate::clock::is_rfc3339_utc;
use crate::error::PhronesisError;
use crate::fs::naming::{naming_message, validate_name};
use crate::paths::{
    file_name_of, path_file_name, path_join, path_parent, path_strip_prefix, spec_path_join,
    spec_path_parent, spec_path_strip_prefix,
};
use crate::search::pattern::valid_action_name;
use crate::text::{concat, copy_str};
use crate::types::RenameResult;

verus! {

/// What a rename decides: the file's path and its new path (both joined onto the data
/// root), the new path relative to the data root, and the answer to the caller, with the
/// naming warning to be logged.
#[derive(Debug, Clone, PartialEq, Eq)]
pub struct RenamePlan {
    pub old_full: String,
    pub new_full: String,
    pub new_path: String,
    pub result: RenameResult,
}

/// The path a file at `file_path` under `data_root` is renamed to: `new_name` joined onto
/// the parent of the file's path (none when that path has no parent).
pub open spec fn renamed_full(data_root: Seq<char>, file_path: Seq<char>, new_name: Seq<char>) -> Option<Seq<char>> {
    match spec_path_parent(spec_path_join(data_root, file_path)) {
        Some(parent) => Some(spec_path_join(parent, new_name)),
        None => None,
    }
}

/// A path as the caller sees it: relative to the data root when it lies under it, whole
/// otherwise.
pub open spec fn relative_to(p: Seq<char>, data_root: Seq<char>) -> Seq<char> {
    match spec_path_strip_prefix(p, data_root) {
        Some(r) => r,
        None => p,
    }
}

/// Plans the rename of the action file at `file_path` (relative to `data_root`) to
/// `new_name`, once it is known whether the file exists: a missing file is not found;
/// otherwise the new name is joined onto the parent of the file's path, the old name is
/// the file name of that path, and a name that breaks the naming convention gives a
/// warning naming the new path relative to the data root. A path without a parent (the
/// root) cannot be renamed.
pub fn rename_plan(data_root: &str, file_path: &str, new_name: &str, exists: bool) -> (r: Result<
    RenamePlan,
    PhronesisError,
>)
    ensures
        r is Ok <==> exists && renamed_full(data_root@, file_path@, new_name@) is Some,
        r matches Err(e) ==> !exists ==> e == PhronesisError::NotFound(e->NotFound_0)
            && e->NotFound_0@ == "File not found: "@ + file_path@,
        r matches Err(e) ==> exists ==> e == PhronesisError::Validation(e->Validation_0)
            && e->Validation_0@ == "Cannot rename root"@,
        r matches Ok(p) ==> {
            let full = spec_path_join(data_root@, file_path@);
            let new_full = renamed_full(data_root@, file_path@, new_name@)->0;
            &&& p.old_full@ == full
            &&& p.new_full@ == new_full
            &&& p.new_path@ == relative_to(new_full, data_root@)
            &&& p.result.old_name@ == match file_name_of(full) {
                Some(n) => n,
                None => Seq::<char>::empty(),
            }
            &&& p.result.new_name@ == new_name@
            &&& (p.result.warning is None <==> valid_action_name(new_name@))
            &&& (p.result.warning matches Some(w) ==> {
                &&& w.file_path@ == relative_to(new_full, data_root@)
                &&& w.rule_violated@ == "naming_convention"@
                &&& w.message@ == naming_message(new_name@)
                &&& is_rfc3339_utc(w.ts@)
            })
        },
{
    if !exists {
        return Err(PhronesisError::NotFound(concat("File not found: ", file_path)));
    }
    let full = path_join(data_root, file_path);
    let parent = match path_parent(full.as_str()) {
        Some(p) => p,
        None => {
            return Err(PhronesisError::Validation(copy_str("Cannot rename root")));
        },
    };
    let new_full = path_join(parent.as_str(), new_name);
    let new_path = match path_strip_prefix(new_full.as_str(), data_root) {
        Some(s) => s,
        None => new_full.clone(),
    };
    let warning = validate_name(new_name, new_path.as_str());
    let old_name = match path_file_name(full.as_str()) {
        Some(n) => n,
        None => String::new(),
    };
    Ok(
        RenamePlan {
            old_full: full,
            new_full,
            new_path,
            result: RenameResult { old_name, new_name: copy_str(new_name), warning },
        },
    )
}

} // verus!
