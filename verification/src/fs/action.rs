//! Append-only action files: which lines of a file are entries.
use vstd::prelude::*;

use crate::fs::jsonl::{jsonl_records, lemma_append_line, records};
use crate::text::trim;

verus! {

/// Whether `serde_json` parses `text` as a JSON value.
pub uninterp spec fn spec_json_parses(text: Seq<char>) -> bool;

/// Calls `serde_json::from_str::<serde_json::Value>` and reports whether it succeeded.
#[verifier::external_body]
pub(crate) fn json_value_parses(text: &str) -> (b: bool)
    ensures
        b == spec_json_parses(text@),
{
    serde_json::from_str::<serde_json::Value>(text).is_ok()
}

/// The records among `rs` that parse as JSON, in order.
pub open spec fn parsed_only(rs: Seq<Seq<char>>) -> Seq<Seq<char>>
    decreases rs.len(),
{
    if rs.len() == 0 {
        Seq::empty()
    } else if spec_json_parses(rs.last()) {
        parsed_only(rs.drop_last()).push(rs.last())
    } else {
        parsed_only(rs.drop_last())
    }
}

/// The entries of an action file with contents `content`: its non-blank lines, trimmed,
/// that parse as JSON (defensive parsing: corrupt lines are skipped), in file order.
pub fn action_entry_lines(content: &str) -> (r: Vec<String>)
    ensures
        r.deep_view() == parsed_only(jsonl_records(content@)),
{
    let rs = records(content);
    let ghost rv = rs.deep_view();
    let mut out: Vec<String> = Vec::new();
    let mut i: usize = 0;
    while i < rs.len()
        invariant
            i <= rs.len(),
            rv == rs.deep_view(),
            rv == jsonl_records(content@),
            out.deep_view() == parsed_only(rv.take(i as int)),
        decreases rs.len() - i,
    {
        proof {
            assert(rv.take(i + 1).drop_last() =~= rv.take(i as int));
        }
        if json_value_parses(rs[i].as_str()) {
            out.push(rs[i].clone());
            assert(out.deep_view() =~= parsed_only(rv.take(i + 1)));
        }
        i = i + 1;
    }
    assert(rv.take(rs.len() as int) =~= rv);
    out
}

/// What a read gives back of a write: appending one serialized JSON line (no newline
/// inside, parseable, as written by `append_action`) to an action file that ends at a line
/// boundary makes the entries read back the previous ones followed by the new one.
pub proof fn lemma_append_then_read(content: Seq<char>, line: Seq<char>)
    requires
        content.len() == 0 || content.last() == '\n',
        !line.contains('\n'),
        trim(line) == line,
        line.len() > 0,
        spec_json_parses(line),
    ensures
        parsed_only(jsonl_records(content + line + seq!['\n'])) == parsed_only(
            jsonl_records(content),
        ).push(line),
{
    lemma_append_line(content, line);
    let rs = jsonl_records(content);
    assert(rs.push(line).drop_last() =~= rs);
}

} // verus!
