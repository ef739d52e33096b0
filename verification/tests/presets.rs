use codex_providers::presets::{
    builtin_collaboration_mode_presets, compose_preset, default_preset, format_mode_names,
    plan_preset, ModeKind, PresetTexts, ReasoningEffort,
};

#[test]
fn preset_names_use_mode_display_names() {
    assert_eq!(default_preset("Default", "d").name, "Default");
    assert_eq!(plan_preset("Plan", "p").name, "Plan");
    assert_eq!(compose_preset("Compose", "c").name, "Compose");
    assert_eq!(plan_preset("Plan", "p").model, None);
    assert_eq!(
        plan_preset("Plan", "p").reasoning_effort,
        Some(Some(ReasoningEffort::Medium))
    );
    assert_eq!(default_preset("Default", "d").model, None);
    assert_eq!(default_preset("Default", "d").reasoning_effort, None);
    assert_eq!(compose_preset("Compose", "c").model, None);
    assert_eq!(
        compose_preset("Compose", "c").reasoning_effort,
        Some(Some(ReasoningEffort::Medium))
    );
}

#[test]
fn presets_carry_mode_and_instructions() {
    let presets = builtin_collaboration_mode_presets(&PresetTexts {
        default_name: "Default".to_string(),
        default_instructions: "default text".to_string(),
        plan_name: "Plan".to_string(),
        plan_instructions: "plan text".to_string(),
        compose_name: "Compose".to_string(),
        compose_instructions: "compose text".to_string(),
    });
    assert_eq!(presets.len(), 3);
    assert_eq!(presets[0].mode, Some(ModeKind::Default));
    assert_eq!(presets[1].mode, Some(ModeKind::Plan));
    assert_eq!(presets[2].mode, Some(ModeKind::Compose));
    assert_eq!(
        presets[0].developer_instructions,
        Some(Some("default text".to_string()))
    );
    assert_eq!(presets[1].developer_instructions, Some(Some("plan text".to_string())));
    assert_eq!(
        presets[2].developer_instructions,
        Some(Some("compose text".to_string()))
    );
}

#[test]
fn mode_names_read_as_a_sentence_fragment() {
    assert_eq!(format_mode_names(&[]), "none");
    assert_eq!(format_mode_names(&["Default"]), "Default");
    assert_eq!(format_mode_names(&["Default", "Plan"]), "Default and Plan");
    assert_eq!(
        format_mode_names(&["Default", "Plan", "Compose"]),
        "Default, Plan, Compose"
    );
}
