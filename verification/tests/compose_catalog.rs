use codex_providers::compose::{
    build_compose_skills_catalog, build_compose_skills_catalog_from_outcome, is_compose_name_exec,
    LoadedSkill,
};

#[test]
fn compose_catalog_renders_skill_entries() {
    let catalog = build_compose_skills_catalog(&[(
        "compose:ask",
        "Ask the user",
        "file:///tmp/compose/ask/SKILL.md",
    )]);
    assert!(catalog.contains("<compose_skills>"));
    assert!(catalog.contains("<name>compose:ask</name>"));
}

#[test]
fn compose_catalog_renders_exact_block() {
    let catalog = build_compose_skills_catalog(&[
        ("compose:ask", "Ask the user", "/a/SKILL.md"),
        ("regular-skill", "Not listed", "/b/SKILL.md"),
        ("compose:plan", "Plan the work", "/c/SKILL.md"),
    ]);
    assert_eq!(
        catalog,
        "<compose_skills>\n  <skill>\n    <name>compose:ask</name>\n    <description>Ask the user</description>\n    <location>/a/SKILL.md</location>\n  </skill>\n  <skill>\n    <name>compose:plan</name>\n    <description>Plan the work</description>\n    <location>/c/SKILL.md</location>\n  </skill>\n</compose_skills>"
    );
}

#[test]
fn compose_catalog_is_empty_without_compose_skills() {
    assert_eq!(build_compose_skills_catalog(&[]), "");
    assert_eq!(
        build_compose_skills_catalog(&[("regular-skill", "d", "/x"), ("compose", "d", "/y")]),
        ""
    );
}

#[test]
fn compose_name_needs_the_full_prefix() {
    assert!(is_compose_name_exec("compose:ask"));
    assert!(is_compose_name_exec("compose:"));
    assert!(!is_compose_name_exec("compose"));
    assert!(!is_compose_name_exec("Compose:ask"));
    assert!(!is_compose_name_exec("my-compose:ask"));
}

fn skill(name: &str, enabled: bool) -> LoadedSkill {
    LoadedSkill {
        name: name.to_string(),
        description: format!("{name} description"),
        location: format!("/skills/{name}/SKILL.md"),
        enabled,
    }
}

#[test]
fn compose_catalog_from_outcome_lists_enabled_compose_skills() {
    let skills = vec![
        skill("compose:ask", true),
        skill("compose:off", false),
        skill("regular-skill", true),
    ];
    let catalog = build_compose_skills_catalog_from_outcome(&skills);
    assert!(catalog.contains("<name>compose:ask</name>"));
    assert!(catalog.contains("<location>/skills/compose:ask/SKILL.md</location>"));
    assert!(!catalog.contains("compose:off"));
    assert!(!catalog.contains("regular-skill"));
}

#[test]
fn compose_catalog_from_outcome_is_empty_when_all_disabled() {
    let skills = vec![skill("compose:ask", false)];
    assert_eq!(build_compose_skills_catalog_from_outcome(&skills), "");
}
