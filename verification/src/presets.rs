//! The built-in collaboration mode presets and the sentence fragment that
//! names the known modes.
use vstd::prelude::*;

verus! {

/// The collaboration modes the built-in presets select.
#[derive(Debug, Clone, Copy, PartialEq, Eq)]
pub enum ModeKind {
    Default,
    Plan,
    Compose,
}

/// The reasoning effort the built-in presets ask for.
#[derive(Debug, Clone, Copy, PartialEq, Eq)]
pub enum ReasoningEffort {
    Medium,
}

/// A collaboration mode preset: what it sets, where `None` leaves a setting
/// as it is and `Some(None)` clears it.
#[derive(Debug, PartialEq, Eq)]
pub struct CollaborationModeMask {
    pub name: String,
    pub mode: Option<ModeKind>,
    pub model: Option<String>,
    pub reasoning_effort: Option<Option<ReasoningEffort>>,
    pub developer_instructions: Option<Option<String>>,
}

/// Texts joined with a separator between each two.
pub open spec fn joined_with(texts: Seq<Seq<char>>, separator: Seq<char>) -> Seq<char>
    decreases texts.len(),
{
    if texts.len() == 0 {
        seq![]
    } else if texts.len() == 1 {
        texts[0]
    } else {
        joined_with(texts.drop_last(), separator) + separator + texts.last()
    }
}

/// The known mode names as a sentence fragment: `none` when there are none,
/// `A and B` for two, and `A, B, C` for more.
pub open spec fn mode_names_text(names: Seq<Seq<char>>) -> Seq<char> {
    if names.len() == 0 {
        "none"@
    } else if names.len() == 1 {
        names[0]
    } else if names.len() == 2 {
        names[0] + " and "@ + names[1]
    } else {
        joined_with(names, ", "@)
    }
}

pub open spec fn str_views(names: Seq<&str>) -> Seq<Seq<char>> {
    names.map_values(|n: &str| n@)
}

/// Names the modes, given their display names, as a sentence fragment.
pub fn format_mode_names(names: &[&str]) -> (r: String)
    ensures
        r@ == mode_names_text(str_views(names@)),
{
    let ghost views = str_views(names@);
    if names.len() == 0 {
        return "none".to_string();
    }
    if names.len() == 1 {
        return names[0].to_string();
    }
    if names.len() == 2 {
        let mut out = String::new();
        out.append(names[0]);
        out.append(" and ");
        out.append(names[1]);
        return out;
    }
    let mut out = String::new();
    out.append(names[0]);
    let mut i: usize = 1;
    proof {
        assert(views.take(1) =~= seq![views[0]]);
    }
    while i < names.len()
        invariant
            1 <= i <= names@.len(),
            views == str_views(names@),
            out@ == joined_with(views.take(i as int), ", "@),
        decreases names@.len() - i,
    {
        out.append(", ");
        out.append(names[i]);
        proof {
            assert(views.take(i + 1).drop_last() =~= views.take(i as int));
        }
        i = i + 1;
    }
    proof {
        assert(views.take(names@.len() as int) =~= views);
    }
    out
}

/// The Plan preset: its display name, medium reasoning effort and the plan
/// instructions.
pub fn plan_preset(display_name: &str, plan_instructions: &str) -> (r: CollaborationModeMask)
    ensures
        r.name@ == display_name@,
        r.mode == Some(ModeKind::Plan),
        r.model is None,
        r.reasoning_effort == Some(Some(ReasoningEffort::Medium)),
        r.developer_instructions matches Some(Some(text)) && text@ == plan_instructions@,
{
    CollaborationModeMask {
        name: display_name.to_string(),
        mode: Some(ModeKind::Plan),
        model: None,
        reasoning_effort: Some(Some(ReasoningEffort::Medium)),
        developer_instructions: Some(Some(plan_instructions.to_string())),
    }
}

/// The Default preset: its display name, the reasoning effort left as it is,
/// and the default instructions.
pub fn default_preset(display_name: &str, instructions: &str) -> (r: CollaborationModeMask)
    ensures
        r.name@ == display_name@,
        r.mode == Some(ModeKind::Default),
        r.model is None,
        r.reasoning_effort is None,
        r.developer_instructions matches Some(Some(text)) && text@ == instructions@,
{
    CollaborationModeMask {
        name: display_name.to_string(),
        mode: Some(ModeKind::Default),
        model: None,
        reasoning_effort: None,
        developer_instructions: Some(Some(instructions.to_string())),
    }
}

/// The Compose preset: its display name, medium reasoning effort and the
/// compose instructions.
pub fn compose_preset(display_name: &str, instructions: &str) -> (r: CollaborationModeMask)
    ensures
        r.name@ == display_name@,
        r.mode == Some(ModeKind::Compose),
        r.model is None,
        r.reasoning_effort == Some(Some(ReasoningEffort::Medium)),
        r.developer_instructions matches Some(Some(text)) && text@ == instructions@,
{
    CollaborationModeMask {
        name: display_name.to_string(),
        mode: Some(ModeKind::Compose),
        model: None,
        reasoning_effort: Some(Some(ReasoningEffort::Medium)),
        developer_instructions: Some(Some(instructions.to_string())),
    }
}

/// The display names and instructions of the three built-in presets.
#[derive(Debug, PartialEq, Eq)]
pub struct PresetTexts {
    pub default_name: String,
    pub default_instructions: String,
    pub plan_name: String,
    pub plan_instructions: String,
    pub compose_name: String,
    pub compose_instructions: String,
}

/// The built-in presets, in order: Default, Plan, Compose.
pub fn builtin_collaboration_mode_presets(texts: &PresetTexts) -> (r: Vec<CollaborationModeMask>)
    ensures
        r@.len() == 3,
        r@[0].mode == Some(ModeKind::Default) && r@[0].name@ == texts.default_name@,
        r@[0].reasoning_effort is None,
        r@[0].developer_instructions matches Some(Some(t)) && t@ == texts.default_instructions@,
        r@[1].mode == Some(ModeKind::Plan) && r@[1].name@ == texts.plan_name@,
        r@[1].reasoning_effort == Some(Some(ReasoningEffort::Medium)),
        r@[1].developer_instructions matches Some(Some(t)) && t@ == texts.plan_instructions@,
        r@[2].mode == Some(ModeKind::Compose) && r@[2].name@ == texts.compose_name@,
        r@[2].reasoning_effort == Some(Some(ReasoningEffort::Medium)),
        r@[2].developer_instructions matches Some(Some(t)) && t@ == texts.compose_instructions@,
        forall|i: int| 0 <= i < 3 ==> (#[trigger] r@[i]).model is None,
{
    let mut out: Vec<CollaborationModeMask> = Vec::new();
    out.push(default_preset(texts.default_name.as_str(), texts.default_instructions.as_str()));
    out.push(plan_preset(texts.plan_name.as_str(), texts.plan_instructions.as_str()));
    out.push(compose_preset(texts.compose_name.as_str(), texts.compose_instructions.as_str()));
    out
}

} // verus!
