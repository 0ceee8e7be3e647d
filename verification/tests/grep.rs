use phronesis::error::PhronesisError;
use phronesis::search::grep::{grep_search, GrepCandidate};

fn file(rel_path: &str, content: &str) -> GrepCandidate {
    let filename = rel_path.rsplit('/').next().unwrap().to_string();
    GrepCandidate {
        rel_path: rel_path.to_string(),
        filename,
        lines: Some(content.lines().map(|l| Some(l.to_string())).collect()),
    }
}

#[test]
fn test_grep_filename_match() {
    let cands = vec![file("send_email_politely.jsonl", "{\"ts\":\"t1\",\"action\":\"send\"}\n")];
    let results = grep_search(&cands, "send_email", None).unwrap();
    assert_eq!(results.len(), 1);
    assert!(results[0].matched_lines.iter().any(|m| m.is_filename_match));
}

#[test]
fn test_grep_content_match() {
    let cands = vec![file(
        "handle_error.jsonl",
        "{\"ts\":\"t1\",\"action\":\"retry connection\"}\n{\"ts\":\"t2\",\"action\":\"log error\"}\n",
    )];
    let results = grep_search(&cands, "retry", None).unwrap();
    assert_eq!(results.len(), 1);
    assert!(results[0]
        .matched_lines
        .iter()
        .any(|m| !m.is_filename_match && m.content.contains("retry")));
    assert_eq!(results[0].matched_lines.len(), 1);
    assert_eq!(results[0].matched_lines[0].line_number, 1);
}

#[test]
fn test_grep_max_results() {
    let cands: Vec<GrepCandidate> = (0..10)
        .map(|i| file(&format!("action_{}.jsonl", i), "{\"ts\":\"t1\"}\n"))
        .collect();
    let results = grep_search(&cands, "action", Some(3)).unwrap();
    assert!(results.len() <= 3);
    assert_eq!(results.len(), 3);
    assert_eq!(results[2].path, "action_2.jsonl");
}

#[test]
fn test_grep_no_match() {
    let cands = vec![file("greet_user.jsonl", "{\"ts\":\"t1\"}\n")];
    let results = grep_search(&cands, "nonexistent_pattern", None).unwrap();
    assert!(results.is_empty());
}

#[test]
fn test_grep_nested_dirs() {
    let cands = vec![file("sub/deep/handle_deep_task.jsonl", "{\"ts\":\"t1\"}\n")];
    let results = grep_search(&cands, "deep_task", None).unwrap();
    assert_eq!(results.len(), 1);
    assert_eq!(results[0].path, "sub/deep/handle_deep_task.jsonl");
}

#[test]
fn test_grep_skips_hidden_files() {
    let cands = vec![
        file(".meta.jsonl", "{\"description\":\"test\"}\n"),
        file("visible.jsonl", "{\"ts\":\"t1\"}\n"),
    ];
    let results = grep_search(&cands, "test", None).unwrap();
    assert!(results.iter().all(|r| !r.path.contains(".meta")));
    assert!(results.is_empty());
}

#[test]
fn ac02_grep_finds_by_name_and_content() {
    let praxis = vec![
        file(".meta.jsonl", "{\"description\":\"외부 세계에 영향을 미치는 실천 행동\"}\n"),
        file(
            "send_apology_email.jsonl",
            "{\"action\":\"공감 표현 후 대안 제시\",\"situation\":\"사용자가 불만을 표시함\",\"ts\":\"2026-04-14T10:00:00Z\"}\n",
        ),
    ];
    let results = grep_search(&praxis, "apology", None).unwrap();
    assert!(!results.is_empty());
    assert!(results.iter().any(|r| r.matched_lines.iter().any(|m| m.is_filename_match)));

    let results = grep_search(&praxis, "공감", None).unwrap();
    assert!(!results.is_empty());
    assert!(results.iter().any(|r| r.matched_lines.iter().any(|m| !m.is_filename_match)));

    let results = grep_search(&praxis, ".", None).unwrap();
    assert!(results.len() <= 50);

    let results = grep_search(&praxis, ".", Some(2)).unwrap();
    assert!(results.len() <= 2);
}

#[test]
fn default_cap_is_fifty_files() {
    let cands: Vec<GrepCandidate> = (0..60)
        .map(|i| file(&format!("a_{}.jsonl", i), "x\n"))
        .collect();
    assert_eq!(grep_search(&cands, "a_", None).unwrap().len(), 50);
    assert_eq!(grep_search(&cands, "a_", Some(0)).unwrap().len(), 0);
}

#[test]
fn only_jsonl_contents_are_searched() {
    let cands = vec![
        file("notes.md", "retry here\n"),
        GrepCandidate {
            rel_path: "gone.jsonl".to_string(),
            filename: "gone.jsonl".to_string(),
            lines: None,
        },
        GrepCandidate {
            rel_path: "partial.jsonl".to_string(),
            filename: "partial.jsonl".to_string(),
            lines: Some(vec![None, Some("retry later".to_string())]),
        },
    ];
    let results = grep_search(&cands, "retry", None).unwrap();
    assert_eq!(results.len(), 1);
    assert_eq!(results[0].path, "partial.jsonl");
    assert_eq!(results[0].matched_lines[0].line_number, 2);
    assert_eq!(results[0].matched_lines[0].content, "retry later");
}

#[test]
fn filename_match_comes_first_as_line_zero() {
    let cands = vec![file("retry_job.jsonl", "a\nretry b\n")];
    let results = grep_search(&cands, "retry", None).unwrap();
    let lines = &results[0].matched_lines;
    assert_eq!(lines.len(), 2);
    assert_eq!(lines[0].line_number, 0);
    assert!(lines[0].is_filename_match);
    assert_eq!(lines[0].content, "retry_job.jsonl");
    assert_eq!(lines[1].line_number, 2);
}

#[test]
fn invalid_pattern_is_a_validation_error() {
    let cands = vec![file("a.jsonl", "x\n")];
    match grep_search(&cands, "(unclosed", None) {
        Err(PhronesisError::Validation(m)) => assert!(m.starts_with("Invalid regex: ")),
        other => panic!("expected a validation error, got {:?}", other),
    }
}
