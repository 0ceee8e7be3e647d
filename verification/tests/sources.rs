use phronesis::fs::sources::{
    explicit_decision_source, important_events_from_sources, open_loops_from_sources,
    recommended_action_from_sources, source_document, source_excerpt, source_kind_for_path,
    strip_frontmatter_str, summary_from_sources, themes_from_sources, title_from_sources,
    title_of_path_str, truncate_chars_str, SourceDocument,
};
use phronesis::types::SourceKind;

#[test]
fn frontmatter_is_stripped_only_when_closed() {
    assert_eq!(strip_frontmatter_str("---\ntitle: x\n---\nbody"), "body");
    assert_eq!(strip_frontmatter_str("---\ntitle: x\nbody"), "---\ntitle: x\nbody");
    assert_eq!(strip_frontmatter_str("plain"), "plain");
}

#[test]
fn truncation_counts_characters() {
    assert_eq!(truncate_chars_str("abcdef", 3), "abc...");
    assert_eq!(truncate_chars_str("abc", 3), "abc");
    assert_eq!(truncate_chars_str("한국어테스트", 2), "한국...");
}

#[test]
fn excerpt_is_stripped_and_cut_at_240() {
    let long = "x".repeat(300);
    let d = source_document("docs/a.md".to_string(), format!("---\na: b\n---\n{}", long));
    assert_eq!(d.excerpt, format!("{}...", "x".repeat(240)));
    assert_eq!(d.path, "docs/a.md");
}

#[test]
fn source_kinds_follow_the_root() {
    assert_eq!(source_kind_for_path("raw/semantic/a.md"), SourceKind::Semantic);
    assert_eq!(source_kind_for_path("raw/temporal/a.md"), SourceKind::Temporal);
    assert_eq!(source_kind_for_path("docs/a.md"), SourceKind::Docs);
    assert_eq!(source_kind_for_path("elsewhere/a.md"), SourceKind::External);
}

fn doc(path: &str, content: &str) -> SourceDocument {
    source_document(path.to_string(), content.to_string())
}

#[test]
fn titles_and_summaries() {
    assert_eq!(title_of_path_str("raw/semantic/my_trace.md"), "my trace");
    let none: Vec<SourceDocument> = vec![];
    assert_eq!(title_from_sources(&none, "Wisdom"), "Wisdom");
    assert_eq!(title_from_sources(&vec![doc("docs/.md", "x")], "Report"), "Report");
    let two = vec![doc("docs/a.md", "alpha"), doc("docs/b_c.md", "beta")];
    assert_eq!(summary_from_sources(&two), "alpha beta");
    assert_eq!(summary_from_sources(&none), "No source content available");
    assert_eq!(recommended_action_from_sources(&two), "Review and apply the guidance from docs/a.md");
    assert_eq!(recommended_action_from_sources(&none), "Review the available source evidence");
    assert_eq!(source_excerpt(&two), Some("alpha".to_string()));
    assert_eq!(source_excerpt(&none), None);
    assert_eq!(themes_from_sources(&two), vec!["a".to_string(), "b c".to_string()]);
    assert_eq!(important_events_from_sources(&two), vec!["alpha".to_string(), "beta".to_string()]);
}

#[test]
fn open_loops_and_decisions() {
    let docs = vec![doc("docs/a.md", "A TODO item"), doc("docs/b.md", "nothing"), doc("docs/c.md", "Follow-Up soon")];
    assert_eq!(
        open_loops_from_sources(&docs),
        vec!["Review follow-up in docs/a.md".to_string(), "Review follow-up in docs/c.md".to_string()]
    );
    assert!(!explicit_decision_source(&docs));
    assert!(explicit_decision_source(&vec![doc("docs/decision_log.md", "x")]));
    assert!(explicit_decision_source(&vec![doc("docs/x.md", "Proposal ACCEPTED")]));
}

#[test]
fn decisions_are_found_in_any_case() {
    assert!(explicit_decision_source(&vec![doc("docs/x.md", "Decision: ship v2")]));
}
