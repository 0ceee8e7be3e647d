use phronesis::fs::action::action_entry_lines;
use phronesis::fs::jsonl::records;

#[test]
fn test_defensive_parsing_skips_corrupt_line() {
    let content = "{\"ts\":\"t1\",\"a\":1}\n{corrupt\n{\"ts\":\"t2\",\"a\":2}\n";
    let entries = action_entry_lines(content);
    assert_eq!(entries.len(), 2);
    let first: serde_json::Value = serde_json::from_str(&entries[0]).unwrap();
    let second: serde_json::Value = serde_json::from_str(&entries[1]).unwrap();
    assert_eq!(first["a"], 1);
    assert_eq!(second["a"], 2);
}

#[test]
fn test_read_empty_file() {
    assert!(action_entry_lines("").is_empty());
}

#[test]
fn test_read_whitespace_only_file() {
    assert!(action_entry_lines("\n\n  \n\n").is_empty());
}

#[test]
fn append_then_read_gives_back_entries_in_order() {
    let mut content = String::new();
    for data in ["first", "second", "third"] {
        let mut map = serde_json::Map::new();
        map.insert("ts".to_string(), serde_json::Value::String("t".to_string()));
        map.insert("data".to_string(), serde_json::Value::String(data.to_string()));
        let line = serde_json::to_string(&serde_json::Value::Object(map)).unwrap();
        content.push_str(&line);
        content.push('\n');
    }
    let entries = action_entry_lines(&content);
    assert_eq!(entries.len(), 3);
    assert!(entries[0].contains("first"));
    assert!(entries[1].contains("second"));
    assert!(entries[2].contains("third"));
}

#[test]
fn records_trim_and_skip_blank_lines() {
    let r = records("  a \r\n\n\t\nb\nlast-without-newline  ");
    assert_eq!(r, vec!["a".to_string(), "b".to_string(), "last-without-newline".to_string()]);
}

#[test]
fn records_trim_unicode_whitespace() {
    let r = records("\u{3000}x\u{a0}\n\u{2028}\n");
    assert_eq!(r, vec!["x".to_string()]);
}

#[test]
fn corrupt_last_line_is_skipped() {
    let entries = action_entry_lines("{\"ts\":\"t1\"}\n{\"ts\":\"t2\"");
    assert_eq!(entries, vec!["{\"ts\":\"t1\"}".to_string()]);
}

fn json_line(pairs: &[(&str, &str)]) -> String {
    let mut map = serde_json::Map::new();
    for (k, v) in pairs {
        map.insert(k.to_string(), serde_json::Value::String(v.to_string()));
    }
    let mut line = serde_json::to_string(&serde_json::Value::Object(map)).unwrap();
    line.push('\n');
    line
}

#[test]
fn test_append_and_read() {
    let mut content = String::new();
    content.push_str(&json_line(&[("ts", "2026-04-14T10:00:00Z"), ("action", "greet")]));
    content.push_str(&json_line(&[("ts", "2026-04-14T11:00:00Z"), ("action", "respond")]));
    let entries = action_entry_lines(&content);
    assert_eq!(entries.len(), 2);
    let first: serde_json::Value = serde_json::from_str(&entries[0]).unwrap();
    let second: serde_json::Value = serde_json::from_str(&entries[1]).unwrap();
    assert_eq!(first["action"], "greet");
    assert_eq!(second["action"], "respond");
}

#[test]
fn ac11_append_only_enforcement() {
    let mut content = String::new();
    content.push_str(&json_line(&[("ts", "t1"), ("action", "first")]));
    let before = action_entry_lines(&content);
    content.push_str(&json_line(&[("ts", "t2"), ("action", "second")]));
    let entries = action_entry_lines(&content);
    assert_eq!(entries.len(), 2);
    assert_eq!(entries[0], before[0]);
    let first: serde_json::Value = serde_json::from_str(&entries[0]).unwrap();
    let second: serde_json::Value = serde_json::from_str(&entries[1]).unwrap();
    assert_eq!(first["action"], "first");
    assert_eq!(second["action"], "second");
}
