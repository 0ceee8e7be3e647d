//! Reading projection sources: excerpts, titles, themes and the other text that
//! artifacts are made of.
use vstd::prelude::*;

use crate::text::{
    after_last, after_last_str, chars_of, concat, contains, copy_str, find, find_exec, join,
    join_strs, push_str, replace_char, replace_char_str, spec_to_lowercase, starts_with,
    str_contains, str_starts_with, string_of, string_of_range, subvec, to_lowercase,
    trim_suffix_all, trim_suffix_all_str, vec_starts_with,
};
use crate::types::SourceKind;

verus! {

/// A source document of a projection: its path relative to the agent root, the excerpt
/// shown in artifacts, and its full content.
#[derive(Debug, Clone, PartialEq, Eq)]
pub struct SourceDocument {
    pub path: String,
    pub excerpt: String,
    pub content: String,
}

/// The opening line of a frontmatter block.
pub open spec fn frontmatter_open() -> Seq<char> {
    seq!['-', '-', '-', '\n']
}

/// The line that closes a frontmatter block, with the newline before it.
pub open spec fn frontmatter_close() -> Seq<char> {
    seq!['\n', '-', '-', '-', '\n']
}

/// `content` without a leading `---` frontmatter block; unchanged when it has none or the
/// block is not closed.
pub open spec fn strip_frontmatter(content: Seq<char>) -> Seq<char> {
    if starts_with(content, frontmatter_open()) {
        let rest = content.skip(4);
        match find(rest, frontmatter_close()) {
            Some(i) => rest.skip(i + 5),
            None => content,
        }
    } else {
        content
    }
}

/// The first `max` characters of `text`, followed by `...` when some were cut off.
pub open spec fn truncate_chars(text: Seq<char>, max: nat) -> Seq<char> {
    if text.len() <= max {
        text
    } else {
        text.take(max as int) + seq!['.', '.', '.']
    }
}

/// The excerpt of a source with contents `content`.
pub open spec fn excerpt_of(content: Seq<char>) -> Seq<char> {
    truncate_chars(strip_frontmatter(content), 240)
}

/// `content` without its frontmatter block.
pub fn strip_frontmatter_str(content: &str) -> (r: String)
    ensures
        r@ == strip_frontmatter(content@),
{
    let v = chars_of(content);
    proof {
        reveal_strlit("---\n");
        reveal_strlit("\n---\n");
    }
    if vec_starts_with(&v, "---\n") {
        assert("---\n"@ =~= frontmatter_open());
        let rest = subvec(&v, 4, v.len());
        assert(rest@ =~= content@.skip(4));
        let close = chars_of("\n---\n");
        assert(close@ =~= frontmatter_close());
        match find_exec(&rest, &close) {
            Some(i) => {
                proof {
                    crate::text::lemma_contains_find(rest@, close@);
                }
                let r = string_of_range(&rest, i + 5, rest.len());
                assert(r@ =~= rest@.skip(i + 5));
                r
            },
            None => string_of(&v),
        }
    } else {
        assert("---\n"@ =~= frontmatter_open());
        string_of(&v)
    }
}

/// The first `max` characters of `text`, with `...` when some were cut off.
pub fn truncate_chars_str(text: &str, max: usize) -> (r: String)
    ensures
        r@ == truncate_chars(text@, max as nat),
{
    let v = chars_of(text);
    if v.len() <= max {
        string_of(&v)
    } else {
        let mut r = string_of_range(&v, 0, max);
        proof {
            reveal_strlit("...");
        }
        push_str(&mut r, "...");
        assert(r@ =~= truncate_chars(text@, max as nat));
        r
    }
}

/// The source document for the file at `path` with contents `content`.
pub fn source_document(path: String, content: String) -> (d: SourceDocument)
    ensures
        d.path == path,
        d.content == content,
        d.excerpt@ == excerpt_of(content@),
{
    let stripped = strip_frontmatter_str(content.as_str());
    let excerpt = truncate_chars_str(stripped.as_str(), 240);
    SourceDocument { path, excerpt, content }
}

/// What kind of evidence a source at `path` is.
pub open spec fn source_kind_of(path: Seq<char>) -> SourceKind {
    if starts_with(path, "raw/semantic"@) {
        SourceKind::Semantic
    } else if starts_with(path, "raw/temporal"@) {
        SourceKind::Temporal
    } else if starts_with(path, "docs"@) {
        SourceKind::Docs
    } else {
        SourceKind::External
    }
}

/// What kind of evidence a source at `path` is.
pub fn source_kind_for_path(path: &str) -> (k: SourceKind)
    ensures
        k == source_kind_of(path@),
{
    if str_starts_with(path, "raw/semantic") {
        SourceKind::Semantic
    } else if str_starts_with(path, "raw/temporal") {
        SourceKind::Temporal
    } else if str_starts_with(path, "docs") {
        SourceKind::Docs
    } else {
        SourceKind::External
    }
}

/// The title a source path gives: its file name without `.md` endings, underscores read
/// as spaces.
pub open spec fn title_of_path(path: Seq<char>) -> Seq<char> {
    replace_char(trim_suffix_all(after_last(path, '/'), ".md"@), '_', ' ')
}

/// The title of a set of sources: that of the first source, or `fallback` when there is
/// no source or its title is empty.
pub open spec fn title_from(sources: Seq<SourceDocument>, fallback: Seq<char>) -> Seq<char> {
    if sources.len() > 0 && title_of_path(sources[0].path@).len() > 0 {
        title_of_path(sources[0].path@)
    } else {
        fallback
    }
}

/// The title a source path gives.
pub fn title_of_path_str(path: &str) -> (r: String)
    ensures
        r@ == title_of_path(path@),
{
    let name = after_last_str(path, '/');
    let stem = trim_suffix_all_str(name.as_str(), ".md");
    replace_char_str(stem.as_str(), '_', ' ')
}

/// The title of a set of sources.
pub fn title_from_sources(sources: &Vec<SourceDocument>, fallback: &str) -> (r: String)
    ensures
        r@ == title_from(sources@, fallback@),
{
    if sources.len() > 0 {
        let t = title_of_path_str(sources[0].path.as_str());
        if t.as_str().is_empty() {
            copy_str(fallback)
        } else {
            t
        }
    } else {
        copy_str(fallback)
    }
}

/// The excerpts of `sources`.
pub open spec fn excerpts(sources: Seq<SourceDocument>) -> Seq<Seq<char>> {
    sources.map_values(|s: SourceDocument| s.excerpt@)
}

/// The excerpts of the sources.
pub fn important_events_from_sources(sources: &Vec<SourceDocument>) -> (r: Vec<String>)
    ensures
        r.deep_view() == excerpts(sources@),
{
    let mut r: Vec<String> = Vec::new();
    let mut i: usize = 0;
    while i < sources.len()
        invariant
            i <= sources.len(),
            r.deep_view() == excerpts(sources@.take(i as int)),
        decreases sources.len() - i,
    {
        let ghost prev = r.deep_view();
        r.push(sources[i].excerpt.clone());
        assert(r.deep_view() =~= prev.push(sources@[i as int].excerpt@));
        assert(excerpts(sources@.take(i + 1)) =~= excerpts(sources@.take(i as int)).push(
            sources@[i as int].excerpt@,
        ));
        i = i + 1;
    }
    assert(sources@.take(sources.len() as int) =~= sources@);
    r
}

/// The summary of a set of sources: their excerpts joined by spaces, or a fixed notice
/// when there is none.
pub open spec fn summary_from(sources: Seq<SourceDocument>) -> Seq<char> {
    if sources.len() == 0 {
        "No source content available"@
    } else {
        join(excerpts(sources), seq![' '])
    }
}

/// The summary of a set of sources.
pub fn summary_from_sources(sources: &Vec<SourceDocument>) -> (r: String)
    ensures
        r@ == summary_from(sources@),
{
    if sources.len() == 0 {
        copy_str("No source content available")
    } else {
        let parts = important_events_from_sources(sources);
        proof {
            reveal_strlit(" ");
        }
        let r = join_strs(&parts, " ");
        assert(" "@ =~= seq![' ']);
        r
    }
}

/// The recommended action of a set of sources.
pub open spec fn recommended_action_from(sources: Seq<SourceDocument>) -> Seq<char> {
    if sources.len() == 0 {
        "Review the available source evidence"@
    } else {
        "Review and apply the guidance from "@ + sources[0].path@
    }
}

/// The recommended action of a set of sources.
pub fn recommended_action_from_sources(sources: &Vec<SourceDocument>) -> (r: String)
    ensures
        r@ == recommended_action_from(sources@),
{
    if sources.len() == 0 {
        copy_str("Review the available source evidence")
    } else {
        concat("Review and apply the guidance from ", sources[0].path.as_str())
    }
}

/// The excerpt of the first source, if any.
pub fn source_excerpt(sources: &Vec<SourceDocument>) -> (r: Option<String>)
    ensures
        sources.len() == 0 ==> r is None,
        sources.len() > 0 ==> (r matches Some(e) && e@ == sources[0].excerpt@),
{
    if sources.len() == 0 {
        None
    } else {
        Some(sources[0].excerpt.clone())
    }
}

/// The themes of a set of sources: the title of each, with `theme` for an empty one.
pub open spec fn themes_from(sources: Seq<SourceDocument>) -> Seq<Seq<char>> {
    sources.map_values(|s: SourceDocument| title_from(seq![s], "theme"@))
}

/// The themes of a set of sources.
pub fn themes_from_sources(sources: &Vec<SourceDocument>) -> (r: Vec<String>)
    ensures
        r.deep_view() == themes_from(sources@),
{
    let mut r: Vec<String> = Vec::new();
    let mut i: usize = 0;
    while i < sources.len()
        invariant
            i <= sources.len(),
            r.deep_view() == themes_from(sources@.take(i as int)),
        decreases sources.len() - i,
    {
        let t = title_of_path_str(sources[i].path.as_str());
        let theme = if t.as_str().is_empty() {
            copy_str("theme")
        } else {
            t
        };
        assert(seq![sources@[i as int]][0] == sources@[i as int]);
        let ghost prev = r.deep_view();
        r.push(theme);
        assert(r.deep_view() =~= prev.push(theme@));
        assert(themes_from(sources@.take(i + 1)) =~= themes_from(sources@.take(i as int)).push(
            title_from(seq![sources@[i as int]], "theme"@),
        ));
        i = i + 1;
    }
    assert(sources@.take(sources.len() as int) =~= sources@);
    r
}

/// The lowercased contents of a source mention `word`.
pub open spec fn mentions(content: Seq<char>, word: Seq<char>) -> bool {
    contains(spec_to_lowercase(content), word)
}

/// The open loops of a set of sources: one per source whose content mentions a follow-up
/// or a todo.
pub open spec fn open_loops_from(sources: Seq<SourceDocument>) -> Seq<Seq<char>>
    decreases sources.len(),
{
    if sources.len() == 0 {
        Seq::empty()
    } else {
        let s = sources.last();
        let rest = open_loops_from(sources.drop_last());
        if mentions(s.content@, "follow-up"@) || mentions(s.content@, "todo"@) {
            rest.push("Review follow-up in "@ + s.path@)
        } else {
            rest
        }
    }
}

/// The open loops of a set of sources.
pub fn open_loops_from_sources(sources: &Vec<SourceDocument>) -> (r: Vec<String>)
    ensures
        r.deep_view() == open_loops_from(sources@),
{
    let mut r: Vec<String> = Vec::new();
    let mut i: usize = 0;
    while i < sources.len()
        invariant
            i <= sources.len(),
            r.deep_view() == open_loops_from(sources@.take(i as int)),
        decreases sources.len() - i,
    {
        proof {
            assert(sources@.take(i + 1).drop_last() =~= sources@.take(i as int));
        }
        let lower = to_lowercase(sources[i].content.as_str());
        if str_contains(lower.as_str(), "follow-up") || str_contains(lower.as_str(), "todo") {
            r.push(concat("Review follow-up in ", sources[i].path.as_str()));
            assert(r.deep_view() =~= open_loops_from(sources@.take(i + 1)));
        }
        i = i + 1;
    }
    assert(sources@.take(sources.len() as int) =~= sources@);
    r
}

/// A source marks an explicit decision: its path says so, or its content mentions a
/// decision or an acceptance.
pub open spec fn is_decision_source(s: SourceDocument) -> bool {
    contains(s.path@, "decision"@) || mentions(s.content@, "decision"@) || mentions(
        s.content@,
        "accepted"@,
    )
}

/// Some source marks an explicit decision.
pub fn explicit_decision_source(sources: &Vec<SourceDocument>) -> (b: bool)
    ensures
        b == exists|i: int| 0 <= i < sources.len() && is_decision_source(#[trigger] sources@[i]),
{
    let mut i: usize = 0;
    while i < sources.len()
        invariant
            i <= sources.len(),
            forall|j: int| 0 <= j < i ==> !is_decision_source(#[trigger] sources@[j]),
        decreases sources.len() - i,
    {
        let lower = to_lowercase(sources[i].content.as_str());
        if str_contains(sources[i].path.as_str(), "decision") || str_contains(
            lower.as_str(),
            "decision",
        ) || str_contains(lower.as_str(), "accepted") {
            assert(is_decision_source(sources@[i as int]));
            return true;
        }
        i = i + 1;
    }
    false
}

} // verus!
