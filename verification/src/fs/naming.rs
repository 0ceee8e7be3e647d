//! The action-file naming convention.
use vstd::prelude::*;

use crate::clock::{is_rfc3339_utc, now_rfc3339};
use crate::search::pattern::{regex_match_each, valid_action_name};
use crate::paths::{file_name_of, path_file_name, path_join, spec_path_join};
use crate::text::{concat3, copy_str};
use crate::types::Warning;

verus! {

/// The message of a naming warning for `filename`.
pub open spec fn naming_message(filename: Seq<char>) -> Seq<char> {
    "Filename '"@ + filename + "' does not match naming convention: verb_object[_method].jsonl"@
}

/// Validate a filename against the naming convention (verb_object[_method].jsonl).
/// Returns `None` if valid, a warning naming `file_path` if violated.
pub fn validate_name(filename: &str, file_path: &str) -> (r: Option<Warning>)
    ensures
        r is None <==> valid_action_name(filename@),
        r matches Some(w) ==> {
            &&& w.file_path@ == file_path@
            &&& w.rule_violated@ == "naming_convention"@
            &&& w.message@ == naming_message(filename@)
            &&& is_rfc3339_utc(w.ts@)
        },
{
    let mut texts: Vec<String> = Vec::new();
    texts.push(copy_str(filename));
    let pattern = "^[a-z][a-z0-9]*(_[a-z][a-z0-9]*)+\\.jsonl$";
    let answers = regex_match_each(pattern, &texts);
    let matched = match answers {
        Ok(v) => v[0],
        Err(_) => false,
    };
    assert(texts[0]@ == filename@);
    if matched {
        None
    } else {
        Some(
            Warning {
                ts: now_rfc3339(),
                file_path: copy_str(file_path),
                message: concat3(
                    "Filename '",
                    filename,
                    "' does not match naming convention: verb_object[_method].jsonl",
                ),
                rule_violated: copy_str("naming_convention"),
            },
        )
    }
}

/// The naming check of a write to the action file at `path` (relative to `data_root`):
/// the file name of `path` joined onto the data root is validated (the empty name when
/// that has none), and a warning names `path` as given.
pub fn validate_action_path(data_root: &str, path: &str) -> (r: Option<Warning>)
    ensures
        r is None <==> valid_action_name(write_file_name(data_root@, path@)),
        r matches Some(w) ==> {
            &&& w.file_path@ == path@
            &&& w.rule_violated@ == "naming_convention"@
            &&& w.message@ == naming_message(write_file_name(data_root@, path@))
            &&& is_rfc3339_utc(w.ts@)
        },
{
    let full = path_join(data_root, path);
    let filename = match path_file_name(full.as_str()) {
        Some(n) => n,
        None => String::new(),
    };
    validate_name(filename.as_str(), path)
}

/// The file name checked for a write to `path` under `data_root`: that of the joined
/// path, empty when it has none.
pub open spec fn write_file_name(data_root: Seq<char>, path: Seq<char>) -> Seq<char> {
    match file_name_of(spec_path_join(data_root, path)) {
        Some(n) => n,
        None => Seq::<char>::empty(),
    }
}

} // verus!
