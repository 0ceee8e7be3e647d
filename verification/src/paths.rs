//! Unix paths as text: joining, parents, prefixes and file names, through `std::path`.
use vstd::prelude::*;

use crate::text::{split_char, starts_with};

verus! {

/// The pieces of a path that are components: the text between `/` separators, without
/// the empty pieces of repeated or trailing separators and without `.` pieces.
pub open spec fn path_pieces(p: Seq<char>) -> Seq<Seq<char>> {
    split_char(p, '/').filter(|s: Seq<char>| s.len() > 0 && s != seq!['.'])
}

/// The file name of a path, as `Path::file_name` documents it: its final component,
/// none when there is no component or the path ends in `..`.
pub open spec fn file_name_of(p: Seq<char>) -> Option<Seq<char>> {
    let q = path_pieces(p);
    if q.len() == 0 || q.last() == seq!['.', '.'] {
        None
    } else {
        Some(q.last())
    }
}

/// What `Path::join` gives for `base` and `p` on Unix, as `PathBuf::push` builds it: an
/// absolute `p` replaces `base`; otherwise `p` follows `base`, with a `/` between them
/// unless `base` is empty or already ends with one.
pub open spec fn spec_path_join(base: Seq<char>, p: Seq<char>) -> Seq<char> {
    if starts_with(p, "/"@) {
        p
    } else if base.len() == 0 || base.last() == '/' {
        base + p
    } else {
        base + seq!['/'] + p
    }
}

/// What `Path::parent` gives for `p`, as text.
pub uninterp spec fn spec_path_parent(p: Seq<char>) -> Option<Seq<char>>;

/// What `Path::strip_prefix` gives for `p` and `base`, as text (none when it fails).
pub uninterp spec fn spec_path_strip_prefix(p: Seq<char>, base: Seq<char>) -> Option<Seq<char>>;

/// `base` joined with `p`: calls `Path::new(base).join(p)` and gives the result as text.
/// The contract states what `PathBuf::push` does on Unix (`spec_path_join`).
#[verifier::external_body]
pub(crate) fn path_join(base: &str, p: &str) -> (r: String)
    ensures
        r@ == spec_path_join(base@, p@),
{
    std::path::Path::new(base).join(p).to_string_lossy().into_owned()
}

/// The parent of `p`: calls `Path::new(p).parent()` and gives the result as text. The
/// contract names the result and states what the documentation says plainly: there is
/// none for the empty path and for the root.
#[verifier::external_body]
pub(crate) fn path_parent(p: &str) -> (r: Option<String>)
    ensures
        r matches Some(s) ==> spec_path_parent(p@) == Some(s@),
        r is None ==> spec_path_parent(p@) is None,
        p@ == Seq::<char>::empty() ==> r is None,
        p@ == seq!['/'] ==> r is None,
{
    std::path::Path::new(p).parent().map(|q| q.to_string_lossy().into_owned())
}

/// `p` relative to `base`: calls `Path::new(p).strip_prefix(base)` and gives the result
/// as text, none when `base` is not a prefix of `p`. The contract names the result.
#[verifier::external_body]
pub(crate) fn path_strip_prefix(p: &str, base: &str) -> (r: Option<String>)
    ensures
        r matches Some(s) ==> spec_path_strip_prefix(p@, base@) == Some(s@),
        r is None ==> spec_path_strip_prefix(p@, base@) is None,
{
    std::path::Path::new(p).strip_prefix(base).ok().map(|q| q.to_string_lossy().into_owned())
}

/// The file name of `p`: calls `Path::new(p).file_name()`. The contract states the final
/// component as the documentation of `Path::components` and `Path::file_name` describes
/// it: repeated separators and `.` pieces are not components, and a path ending in `..`
/// has no file name.
#[verifier::external_body]
pub(crate) fn path_file_name(p: &str) -> (r: Option<String>)
    ensures
        r matches Some(s) ==> file_name_of(p@) == Some(s@),
        r is None ==> file_name_of(p@) is None,
{
    std::path::Path::new(p).file_name().map(|n| n.to_string_lossy().into_owned())
}

} // verus!
