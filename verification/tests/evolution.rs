use phronesis::error::PhronesisError;
use phronesis::evolution::habit::habit_result;
use phronesis::evolution::move_action::{move_outcome, reindex_moved_folder};
use phronesis::evolution::rename_action::rename_plan;
use phronesis::fs::naming::validate_action_path;
use phronesis::search::vector_store::{FolderIndex, IndexEntry, SlotChange};

const ROOT: &str = "/data/_phronesis";

#[test]
fn test_rename_valid() {
    let plan = rename_plan(ROOT, "praxis/old_name.jsonl", "send_email_politely.jsonl", true).unwrap();
    assert_eq!(plan.result.old_name, "old_name.jsonl");
    assert_eq!(plan.result.new_name, "send_email_politely.jsonl");
    assert!(plan.result.warning.is_none());
    assert_eq!(plan.old_full, "/data/_phronesis/praxis/old_name.jsonl");
    assert_eq!(plan.new_full, "/data/_phronesis/praxis/send_email_politely.jsonl");
    assert_eq!(plan.new_path, "praxis/send_email_politely.jsonl");
}

#[test]
fn test_rename_invalid_name_logs_warning() {
    let plan = rename_plan(ROOT, "praxis/old.jsonl", "BAD NAME.txt", true).unwrap();
    assert!(plan.result.warning.is_some());
    let w = plan.result.warning.unwrap();
    assert_eq!(w.rule_violated, "naming_convention");
    assert_eq!(w.file_path, "praxis/BAD NAME.txt");
    assert!(w.ts.contains('T') && w.ts.ends_with("+00:00"));
}

#[test]
fn test_rename_to_same_name() {
    let plan = rename_plan(ROOT, "praxis/send_email.jsonl", "send_email.jsonl", true).unwrap();
    assert_eq!(plan.new_path, "praxis/send_email.jsonl");
    assert_eq!(plan.new_full, plan.old_full);
    assert!(plan.result.warning.is_none());
}

#[test]
fn ac07_rename_file() {
    let plan = rename_plan(ROOT, "praxis/old_action.jsonl", "send_reply_fast.jsonl", true).unwrap();
    assert_eq!(plan.result.old_name, "old_action.jsonl");
    assert_eq!(plan.result.new_name, "send_reply_fast.jsonl");
    assert!(plan.result.warning.is_none());
    assert_eq!(plan.new_path, "praxis/send_reply_fast.jsonl");
}

#[test]
fn rename_follows_path_components() {
    let plan = rename_plan(ROOT, "old.jsonl", "greet_user.jsonl", true).unwrap();
    assert_eq!(plan.new_path, "greet_user.jsonl");
    assert_eq!(plan.result.old_name, "old.jsonl");
    let deep = rename_plan(ROOT, "a/b/c/x.jsonl", "y.jsonl", true).unwrap();
    assert_eq!(deep.new_path, "a/b/c/y.jsonl");
    assert_eq!(deep.result.warning.unwrap().file_path, "a/b/c/y.jsonl");
    let trailing = rename_plan(ROOT, "praxis/folder/", "greet_user.jsonl", true).unwrap();
    assert_eq!(trailing.result.old_name, "folder");
    assert_eq!(trailing.new_path, "praxis/greet_user.jsonl");
    let up = rename_plan(ROOT, "praxis/..", "greet_user.jsonl", true).unwrap();
    assert_eq!(up.result.old_name, "");
    let absolute = rename_plan(ROOT, "praxis/a.jsonl", "/elsewhere/greet_user.jsonl", true).unwrap();
    assert_eq!(absolute.new_full, "/elsewhere/greet_user.jsonl");
    assert_eq!(absolute.new_path, "/elsewhere/greet_user.jsonl");
}

#[test]
fn the_root_cannot_be_renamed() {
    assert_eq!(
        rename_plan("/", "", "greet_user.jsonl", true),
        Err(PhronesisError::Validation("Cannot rename root".to_string()))
    );
}

#[test]
fn test_create_habit_nonexistent_source() {
    let result = habit_result("nonexistent.jsonl", "shortcut.jsonl", false);
    assert!(result.is_err());
    assert_eq!(
        result,
        Err(PhronesisError::NotFound("Source not found: nonexistent.jsonl".to_string()))
    );
}

#[test]
fn habit_for_existing_source() {
    let h = habit_result("praxis/send_apology_email.jsonl", "habits/quick_apology.jsonl", true).unwrap();
    assert_eq!(h.source, "praxis/send_apology_email.jsonl");
    assert_eq!(h.shortcut, "habits/quick_apology.jsonl");
}

#[test]
fn test_move_folder_updates_index() {
    let mut store = FolderIndex::new();
    store.insert("old_folder".into(), "test folder description".into());
    let (removed, inserted) = reindex_moved_folder(
        &mut store,
        "old_folder",
        "new_folder".to_string(),
        Some("test folder description".to_string()),
    );
    assert_eq!(removed, Some(0));
    assert_eq!(inserted, Some(SlotChange::Appended(0)));
    assert_eq!(store.len(), 1);
    assert_eq!(store.entries[0].path, "new_folder");
}

#[test]
fn ac07_move_folder_updates_index() {
    let mut store = FolderIndex::new();
    for (p, d) in [
        ("self", "에이전트 자기 유지와 정체성 관리"),
        ("praxis", "외부 세계에 영향을 미치는 실천 행동"),
        ("praxis/old_communication", "커뮤니케이션 행동"),
    ] {
        store.insert(p.to_string(), d.to_string());
    }
    reindex_moved_folder(
        &mut store,
        "praxis/old_communication",
        "praxis/new_communication".to_string(),
        Some("커뮤니케이션 행동".to_string()),
    );
    assert!(store.entries.iter().all(|e| e.path != "praxis/old_communication"));
    assert!(store
        .entries
        .iter()
        .any(|e| e.path == "praxis/new_communication" && e.description == "커뮤니케이션 행동"));
    assert_eq!(store.len(), 3);
}

#[test]
fn move_without_description_only_removes() {
    let mut store = FolderIndex::from_entries(vec![
        IndexEntry { path: "a".into(), description: "x".into() },
        IndexEntry { path: "b".into(), description: "y".into() },
    ]);
    let (removed, inserted) = reindex_moved_folder(&mut store, "a", "c".to_string(), None);
    assert_eq!(removed, Some(0));
    assert_eq!(inserted, None);
    assert_eq!(store.entries, vec![IndexEntry { path: "b".into(), description: "y".into() }]);
    let (removed, _) = reindex_moved_folder(&mut store, "zzz", "c".to_string(), Some("d".into()));
    assert_eq!(removed, None);
    assert_eq!(store.len(), 2);
}

#[test]
fn restore_needs_matching_vector_count() {
    let entries = vec![
        IndexEntry { path: "self".into(), description: "self management".into() },
        IndexEntry { path: "praxis".into(), description: "external actions".into() },
    ];
    assert_eq!(FolderIndex::restore(entries.clone(), 2).entries, entries);
    assert!(FolderIndex::restore(entries, 3).is_empty());
}

#[test]
fn writes_are_checked_by_file_name() {
    assert!(validate_action_path(ROOT, "praxis/send_email_politely.jsonl").is_none());
    assert!(validate_action_path(ROOT, "praxis/./send_email_politely.jsonl/").is_none());
    assert!(validate_action_path(ROOT, "praxis/send_email_politely.jsonl/..").is_some());
    let w = validate_action_path(ROOT, "praxis/Bad.jsonl").unwrap();
    assert_eq!(w.file_path, "praxis/Bad.jsonl");
    assert_eq!(
        w.message,
        "Filename 'Bad.jsonl' does not match naming convention: verb_object[_method].jsonl"
    );
}

#[test]
fn test_rename_nonexistent() {
    let result = rename_plan(ROOT, "nope.jsonl", "new.jsonl", false);
    assert!(result.is_err());
    assert_eq!(result, Err(PhronesisError::NotFound("File not found: nope.jsonl".to_string())));
}

#[test]
fn test_move_nonexistent() {
    let result = move_outcome("nope", "dest", false);
    assert!(result.is_err());
    assert_eq!(result, Err(PhronesisError::NotFound("Source not found: nope".to_string())));
}

#[test]
fn move_of_an_existing_source() {
    let m = move_outcome("old_folder", "new_folder", true).unwrap();
    assert_eq!(m.old_path, "old_folder");
    assert_eq!(m.new_path, "new_folder");
}
