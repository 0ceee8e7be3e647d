use phronesis::bootstrap::skills_seed;
use phronesis::error::PhronesisError;
use phronesis::fs::skills::append_to_skills;

#[test]
fn test_append_to_skills() {
    let seed = "# Skills\nSeed content\n<!-- AGENT APPENDABLE SECTION -->\n";
    let added = append_to_skills(seed, "My learned pattern").unwrap();
    let content = format!("{}{}", seed, added);
    assert!(content.contains("Seed content"));
    assert!(content.contains("My learned pattern"));
}

#[test]
fn test_append_preserves_seed() {
    let seed = "# Immutable Header\nDo not change\n<!-- AGENT APPENDABLE SECTION -->\n";
    let added = append_to_skills(seed, "New knowledge").unwrap();
    let content = format!("{}{}", seed, added);
    assert!(content.starts_with("# Immutable Header\nDo not change"));
}

#[test]
fn append_adds_content_on_its_own_line() {
    let added = append_to_skills("<!-- AGENT APPENDABLE SECTION -->", "x").unwrap();
    assert_eq!(added, "\nx\n");
}

#[test]
fn append_without_marker_is_refused() {
    let err = append_to_skills("# Skills only\n", "x").unwrap_err();
    assert_eq!(
        err,
        PhronesisError::Validation("skills.md is missing the appendable section marker".into())
    );
}

#[test]
fn ac14_skills_append() {
    let seed = skills_seed();
    assert!(seed.contains("6-Pillar"));
    assert!(seed.contains("네이밍 규칙"));
    assert!(seed.contains("AGENT APPENDABLE SECTION"));
    let added = append_to_skills(&seed, "## My Learned Pattern\n- greeting users warmly").unwrap();
    let content = format!("{}{}", seed, added);
    assert!(content.contains("My Learned Pattern"));
    assert!(content.contains("greeting users warmly"));
    assert!(content.starts_with(&seed));
}
