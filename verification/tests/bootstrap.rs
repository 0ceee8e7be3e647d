use phronesis::bootstrap::{pillar_seeds, skills_seed};
use phronesis::fs::skills::append_to_skills;

#[test]
fn six_pillars_in_order() {
    let seeds = pillar_seeds();
    let names: Vec<&str> = seeds.iter().map(|(n, _)| n.as_str()).collect();
    assert_eq!(names, vec!["self", "perception", "cognition", "praxis", "evolution", "reflection"]);
    assert!(seeds.iter().all(|(_, d)| !d.is_empty()));
    assert_eq!(seeds[3].1, "외부 세계에 영향을 미치는 실천 행동");
}

#[test]
fn test_bootstrap_skills_contains_all_pillars() {
    let skills = skills_seed();
    for (pillar, _) in pillar_seeds() {
        assert!(skills.contains(&format!("/{}", pillar)), "skills.md should mention /{}", pillar);
    }
    assert!(skills.contains("6-Pillar"));
    assert!(skills.contains("AGENT APPENDABLE SECTION"));
}

#[test]
fn seeded_skills_accept_appends() {
    let skills = skills_seed();
    let suffix = append_to_skills(&skills, "My Learned Pattern").unwrap();
    assert_eq!(suffix, "\nMy Learned Pattern\n");
}
