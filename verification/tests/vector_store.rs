use phronesis::search::embedding::MockEmbeddingProvider;
use phronesis::search::vector_store::{FolderIndex, IndexEntry, SlotChange};

#[test]
fn test_remove() {
    let mut store = FolderIndex::new();
    store.insert("a".into(), "desc".into());
    store.insert("b".into(), "desc".into());
    assert_eq!(store.len(), 2);
    store.remove("a");
    assert_eq!(store.len(), 1);
    assert_eq!(store.entries[0].path, "b");
}

#[test]
fn test_update_existing() {
    let mut store = FolderIndex::new();
    assert_eq!(store.insert("a".into(), "old desc".into()), SlotChange::Appended(0));
    assert_eq!(store.insert("a".into(), "new desc".into()), SlotChange::Updated(0));
    assert_eq!(store.len(), 1);
    assert_eq!(store.entries[0].description, "new desc");
}

#[test]
fn test_remove_nonexistent() {
    let mut store = FolderIndex::new();
    store.insert("a".into(), "desc".into());
    let removed = store.remove("nonexistent");
    assert!(removed.is_none());
    assert_eq!(store.len(), 1);
}

#[test]
fn test_remove_all_entries() {
    let mut store = FolderIndex::new();
    store.insert("a".into(), "desc a".into());
    store.insert("b".into(), "desc b".into());
    assert_eq!(store.remove("a"), Some(0));
    assert_eq!(store.remove("b"), Some(0));
    assert!(store.is_empty());
}

#[test]
fn test_bulk_insert_and_search() {
    let mut store = FolderIndex::new();
    for i in 0..100 {
        assert_eq!(
            store.insert(format!("folder_{}", i), format!("description {}", i)),
            SlotChange::Appended(i)
        );
    }
    assert_eq!(store.len(), 100);
    assert_eq!(store.position("folder_50"), Some(50));
}

#[test]
fn position_finds_the_slot() {
    let store = FolderIndex::from_entries(vec![
        IndexEntry { path: "self".into(), description: "self management".into() },
        IndexEntry { path: "praxis".into(), description: "external actions".into() },
    ]);
    assert_eq!(store.position("praxis"), Some(1));
    assert_eq!(store.position("nope"), None);
}

#[test]
fn removing_shifts_later_slots_down() {
    let mut store = FolderIndex::new();
    for p in ["a", "b", "c"] {
        store.insert(p.into(), "d".into());
    }
    assert_eq!(store.remove("b"), Some(1));
    let paths: Vec<&str> = store.entries.iter().map(|e| e.path.as_str()).collect();
    assert_eq!(paths, vec!["a", "c"]);
    assert_eq!(store.insert("b".into(), "again".into()), SlotChange::Appended(2));
}

#[test]
fn mock_components_are_deterministic_and_sized() {
    let p = MockEmbeddingProvider::new(16);
    assert_eq!(p.dimensions(), 16);
    let a = p.raw_components("hello");
    assert_eq!(a.len(), 16);
    assert_eq!(a, p.raw_components("hello"));
    assert_ne!(a, p.raw_components("world"));
    assert!(a.iter().all(|c| *c < (1u32 << 31)));
    assert_eq!(MockEmbeddingProvider::new(0).raw_components("x").len(), 0);
    for d in [128usize, 384, 1536] {
        assert_eq!(MockEmbeddingProvider::new(d).raw_components("dimension test").len(), d);
    }
}
