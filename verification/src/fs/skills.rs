//! `skills.md`: an immutable seed followed by a section the agent may append to.
use vstd::prelude::*;

use crate::error::PhronesisError;
use crate::text::{concat3, contains, copy_str, str_contains, starts_with};

verus! {

/// The marker that opens the agent-appendable section.
pub open spec fn appendable_marker() -> Seq<char> {
    "<!-- AGENT APPENDABLE SECTION -->"@
}

/// The text that an append of `content` adds at the end of the file.
pub open spec fn skills_append_suffix(content: Seq<char>) -> Seq<char> {
    seq!['\n'] + content + seq!['\n']
}

/// Decides an append of `content` to a `skills.md` whose current text is `current`:
/// the text to add at the end of the file, or a validation error when the file lacks the
/// appendable-section marker (the seed section is never rewritten).
pub fn append_to_skills(current: &str, content: &str) -> (r: Result<String, PhronesisError>)
    ensures
        r is Ok <==> contains(current@, appendable_marker()),
        r matches Ok(t) ==> t@ == skills_append_suffix(content@),
        r matches Err(e) ==> e == PhronesisError::Validation(e->Validation_0)
            && e->Validation_0@ == "skills.md is missing the appendable section marker"@,
{
    if !str_contains(current, "<!-- AGENT APPENDABLE SECTION -->") {
        return Err(
            PhronesisError::Validation(
                copy_str("skills.md is missing the appendable section marker"),
            ),
        );
    }
    let t = concat3("\n", content, "\n");
    proof {
        reveal_strlit("\n");
    }
    assert(t@ =~= skills_append_suffix(content@));
    Ok(t)
}

/// An accepted append keeps the seed: the new file starts with the old one (so the seed
/// and the marker stay where they were) and holds the appended content.
pub proof fn lemma_append_preserves_seed(current: Seq<char>, content: Seq<char>)
    requires
        contains(current, appendable_marker()),
    ensures
        starts_with(current + skills_append_suffix(content), current),
        contains(current + skills_append_suffix(content), appendable_marker()),
        contains(current + skills_append_suffix(content), content),
{
    let t = current + skills_append_suffix(content);
    assert(t.subrange(0, current.len() as int) =~= current);
    let k = choose|k: int| #[trigger] crate::text::matches_at(current, appendable_marker(), k);
    assert(t.subrange(k, k + appendable_marker().len()) =~= current.subrange(
        k,
        k + appendable_marker().len(),
    ));
    assert(crate::text::matches_at(t, appendable_marker(), k));
    assert(t.subrange(current.len() + 1 as int, current.len() + 1 + content.len() as int) =~= content);
    assert(crate::text::matches_at(t, content, current.len() + 1 as int));
}

} // verus!
