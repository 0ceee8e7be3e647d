use phronesis::fs::meta::get_latest_description;
use phronesis::types::MetaEntry;

fn entry(d: &str) -> MetaEntry {
    MetaEntry { description: d.to_string(), created: None, updated: Some("t".to_string()) }
}

#[test]
fn test_last_line_wins() {
    let entries = vec![entry("old"), entry("new")];
    let desc = get_latest_description(&entries);
    assert_eq!(desc, Some("new".to_string()));
}

#[test]
fn latest_description_of_no_entries_is_none() {
    assert_eq!(get_latest_description(&Vec::new()), None);
}

#[test]
fn latest_description_of_one_entry() {
    assert_eq!(get_latest_description(&vec![entry("only")]), Some("only".to_string()));
}

#[test]
fn ac12_meta_append_only_and_last_line_wins() {
    let seed = MetaEntry {
        description: "외부 세계에 영향을 미치는 실천 행동".to_string(),
        created: Some("t0".to_string()),
        updated: None,
    };
    let mut entries = vec![seed.clone()];
    assert_eq!(get_latest_description(&entries), Some(seed.description.clone()));
    entries.push(entry("updated praxis description"));
    assert_eq!(entries.len(), 2);
    assert_eq!(entries[0], seed);
    assert_eq!(
        get_latest_description(&entries),
        Some("updated praxis description".to_string())
    );
}

fn parsed_descriptions(content: &str) -> Vec<MetaEntry> {
    phronesis::fs::jsonl::records(content)
        .iter()
        .filter_map(|r| serde_json::from_str::<serde_json::Value>(r).ok())
        .map(|v| MetaEntry {
            description: v["description"].as_str().unwrap_or_default().to_string(),
            created: None,
            updated: None,
        })
        .collect()
}

#[test]
fn meta_test_defensive_parsing() {
    let content = "{\"description\":\"good\"}\n{corrupt\n{\"description\":\"also good\"}\n";
    assert_eq!(phronesis::fs::jsonl::records(content).len(), 3);
    let entries = parsed_descriptions(content);
    assert_eq!(entries.len(), 2);
    assert_eq!(entries[0].description, "good");
    assert_eq!(entries[1].description, "also good");
    assert_eq!(get_latest_description(&entries), Some("also good".to_string()));
}
