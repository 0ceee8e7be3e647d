use phronesis::fs::warnings::select_since;
use phronesis::types::Warning;

fn warning(ts: &str, file_path: &str, message: &str) -> Warning {
    Warning {
        ts: ts.into(),
        file_path: file_path.into(),
        message: message.into(),
        rule_violated: "naming_convention".into(),
    }
}

#[test]
fn test_log_and_get_warnings() {
    let w1 = warning("2026-04-14T10:00:00Z", "/praxis/bad.txt", "Bad name");
    let w2 = warning("2026-04-14T11:00:00Z", "/praxis/also_bad.txt", "Also bad");
    let log = vec![w1, w2];

    let all = select_since(log.clone(), None);
    assert_eq!(all.len(), 2);

    let filtered = select_since(log, Some("2026-04-14T10:30:00Z"));
    assert_eq!(filtered.len(), 1);
    assert_eq!(filtered[0].file_path, "/praxis/also_bad.txt");
}

#[test]
fn test_get_warnings_empty() {
    let warnings = select_since(Vec::new(), None);
    assert!(warnings.is_empty());
}

#[test]
fn ac10_warning_query_with_since() {
    let w1 = warning("2026-04-14T10:00:00Z", "/praxis/bad1.txt", "Bad name 1");
    let w2 = warning("2026-04-14T12:00:00Z", "/praxis/bad2.txt", "Bad name 2");
    let w3 = warning("2026-04-14T14:00:00Z", "/praxis/bad3.txt", "Bad name 3");
    let log = vec![w1, w2, w3];

    let all = select_since(log.clone(), None);
    assert_eq!(all.len(), 3);

    let filtered = select_since(log.clone(), Some("2026-04-14T11:00:00Z"));
    assert_eq!(filtered.len(), 2);
    assert_eq!(filtered[0].file_path, "/praxis/bad2.txt");
    assert_eq!(filtered[1].file_path, "/praxis/bad3.txt");

    let filtered = select_since(log, Some("2026-04-14T13:00:00Z"));
    assert_eq!(filtered.len(), 1);
    assert_eq!(filtered[0].file_path, "/praxis/bad3.txt");
}

#[test]
fn since_is_strictly_after() {
    let log = vec![warning("2026-04-14T10:00:00Z", "/a", "m")];
    assert!(select_since(log.clone(), Some("2026-04-14T10:00:00Z")).is_empty());
    assert_eq!(select_since(log.clone(), Some("2026-04-14T09:59:59Z")).len(), 1);
    // A proper prefix sorts first.
    assert_eq!(select_since(log, Some("2026-04-14")).len(), 1);
}

#[test]
fn later_bound_reports_fewer() {
    let ws = vec![
        warning("2026-04-14T10:00:00Z", "/a", "m"),
        warning("2026-04-14T12:00:00Z", "/b", "m"),
        warning("2026-04-14T14:00:00Z", "/c", "m"),
    ];
    let early = select_since(ws.clone(), Some("2026-04-14T09:00:00Z"));
    let late = select_since(ws.clone(), Some("2026-04-14T12:00:00Z"));
    assert_eq!(early.len(), 3);
    assert_eq!(late.len(), 1);
    assert_eq!(late[0].file_path, "/c");
    assert_eq!(select_since(ws.clone(), None), ws);
}

#[test]
fn warnings_test_defensive_parsing() {
    let content = "{\"ts\":\"t1\",\"file_path\":\"f\",\"message\":\"m\",\"rule_violated\":\"r\"}\n{corrupt\n";
    let parsed: Vec<Warning> = phronesis::fs::jsonl::records(content)
        .iter()
        .filter_map(|r| serde_json::from_str::<serde_json::Value>(r).ok())
        .map(|v| warning(v["ts"].as_str().unwrap(), v["file_path"].as_str().unwrap(), v["message"].as_str().unwrap()))
        .collect();
    assert_eq!(select_since(parsed, None).len(), 1);
}

#[test]
fn ac09_warnings_accumulate() {
    let mut log: Vec<Warning> = Vec::new();
    for name in ["BAD.txt", "also bad.jsonl", "x.jsonl"] {
        if let Some(w) = phronesis::fs::naming::validate_name(name, &format!("/praxis/{}", name)) {
            log.push(w);
        }
    }
    assert_eq!(log.len(), 3);
    assert_eq!(select_since(log, None).len(), 3);
}

#[test]
fn since_compares_instants_not_texts() {
    let ws = vec![
        warning("2026-04-14T10:00:00.5+00:00", "/a", "half a second later"),
        warning("2026-04-14T09:59:59+00:00", "/b", "before"),
        warning("2026-04-14T12:00:00+02:00", "/c", "same instant"),
        warning("2026-04-14T11:00:00+02:00", "/d", "an hour before"),
    ];
    let after = select_since(ws.clone(), Some("2026-04-14T10:00:00Z"));
    let paths: Vec<&str> = after.iter().map(|w| w.file_path.as_str()).collect();
    assert_eq!(paths, vec!["/a"]);
    let after_offset = select_since(ws, Some("2026-04-14T07:30:00-02:00"));
    let paths: Vec<&str> = after_offset.iter().map(|w| w.file_path.as_str()).collect();
    assert_eq!(paths, vec!["/a", "/b", "/c"]);
}

#[test]
fn unparsed_texts_keep_string_order() {
    let ws = vec![warning("t2", "/a", "m"), warning("t1", "/b", "m")];
    let after = select_since(ws, Some("t1"));
    assert_eq!(after.len(), 1);
    assert_eq!(after[0].file_path, "/a");
}
