//! Compose skills: the `<compose_skills>` catalog block that lists them for
//! the model.
use vstd::prelude::*;
use vstd::string::StrSliceExecFns;

verus! {

/// Compose skills are named `compose:<skill>`.
pub open spec fn is_compose_name(name: Seq<char>) -> bool {
    name.len() >= 8 && name.take(8) == "compose:"@
}

pub fn is_compose_name_exec(name: &str) -> (r: bool)
    ensures
        r == is_compose_name(name@),
{
    let prefix = "compose:";
    proof {
        reveal_strlit("compose:");
    }
    if name.unicode_len() < 8 {
        return false;
    }
    let mut i: usize = 0;
    while i < 8
        invariant
            name@.len() >= 8,
            "compose:"@.len() == 8,
            prefix@ == "compose:"@,
            i <= 8,
            forall|j: int| 0 <= j < i ==> name@[j] == "compose:"@[j],
        decreases 8 - i,
    {
        if name.get_char(i) != prefix.get_char(i) {
            assert(name@.take(8)[i as int] != "compose:"@[i as int]);
            return false;
        }
        i = i + 1;
    }
    assert(name@.take(8) =~= "compose:"@);
    true
}

/// One `<skill>` element of the catalog.
pub open spec fn skill_element(name: Seq<char>, description: Seq<char>, location: Seq<char>) -> Seq<
    char,
> {
    "  <skill>\n    <name>"@ + name + "</name>\n    <description>"@ + description
        + "</description>\n    <location>"@ + location + "</location>\n  </skill>"@
}

/// The `<skill>` elements of the compose skills among `skills`, in order.
pub open spec fn compose_elements(skills: Seq<(Seq<char>, Seq<char>, Seq<char>)>) -> Seq<Seq<char>>
    decreases skills.len(),
{
    if skills.len() == 0 {
        seq![]
    } else {
        let rest = compose_elements(skills.drop_last());
        let s = skills.last();
        if is_compose_name(s.0) {
            rest.push(skill_element(s.0, s.1, s.2))
        } else {
            rest
        }
    }
}

/// Lines joined with newlines.
pub open spec fn join_lines(lines: Seq<Seq<char>>) -> Seq<char>
    decreases lines.len(),
{
    if lines.len() == 0 {
        seq![]
    } else if lines.len() == 1 {
        lines[0]
    } else {
        join_lines(lines.drop_last()) + "\n"@ + lines.last()
    }
}

/// The `<compose_skills>` block listing the compose skills among `skills`;
/// empty when there are none.
pub open spec fn compose_catalog(skills: Seq<(Seq<char>, Seq<char>, Seq<char>)>) -> Seq<char> {
    let elements = compose_elements(skills);
    if elements.len() == 0 {
        seq![]
    } else {
        "<compose_skills>\n"@ + join_lines(elements) + "\n</compose_skills>"@
    }
}

/// Adding a skill whose name is not a compose name leaves the catalog as it
/// was.
pub proof fn lemma_catalog_ignores_other_skills(
    skills: Seq<(Seq<char>, Seq<char>, Seq<char>)>,
    extra: (Seq<char>, Seq<char>, Seq<char>),
)
    requires
        !is_compose_name(extra.0),
    ensures
        compose_catalog(skills.push(extra)) == compose_catalog(skills),
{
    assert(skills.push(extra).drop_last() =~= skills);
}

proof fn lemma_no_elements_without_compose_skills(skills: Seq<(Seq<char>, Seq<char>, Seq<char>)>)
    ensures
        compose_elements(skills).len() == 0 <==> forall|i: int|
            0 <= i < skills.len() ==> !is_compose_name(#[trigger] skills[i].0),
    decreases skills.len(),
{
    if skills.len() > 0 {
        let rest = skills.drop_last();
        lemma_no_elements_without_compose_skills(rest);
        assert forall|i: int| 0 <= i < rest.len() implies rest[i] == skills[i] by {}
        if compose_elements(skills).len() == 0 {
            assert forall|i: int| 0 <= i < skills.len() implies !is_compose_name(#[trigger] skills[i].0) by {
                if i < rest.len() {
                    assert(rest[i] == skills[i]);
                }
            }
        }
    }
}

/// The catalog is empty exactly when no skill has a compose name.
pub proof fn lemma_catalog_empty_iff_no_compose_skills(skills: Seq<(Seq<char>, Seq<char>, Seq<char>)>)
    ensures
        compose_catalog(skills) == Seq::<char>::empty() <==> forall|i: int|
            0 <= i < skills.len() ==> !is_compose_name(#[trigger] skills[i].0),
{
    lemma_no_elements_without_compose_skills(skills);
    let elements = compose_elements(skills);
    if elements.len() > 0 {
        let c = "<compose_skills>\n"@ + join_lines(elements) + "\n</compose_skills>"@;
        reveal_strlit("<compose_skills>\n");
        assert(c.len() > 0);
        assert(c != Seq::<char>::empty());
    }
}

pub open spec fn skill_triples(skills: Seq<(&str, &str, &str)>) -> Seq<(Seq<char>, Seq<char>, Seq<char>)> {
    skills.map_values(|s: (&str, &str, &str)| (s.0@, s.1@, s.2@))
}

fn skill_element_exec(name: &str, description: &str, location: &str) -> (r: String)
    ensures
        r@ == skill_element(name@, description@, location@),
{
    let mut out = String::new();
    out.append("  <skill>\n    <name>");
    out.append(name);
    out.append("</name>\n    <description>");
    out.append(description);
    out.append("</description>\n    <location>");
    out.append(location);
    out.append("</location>\n  </skill>");
    out
}

/// Build a `<compose_skills>` catalog block from compose skill metadata:
/// `(name, description, location)` of each skill; skills whose name does not
/// start with `compose:` are left out.
pub fn build_compose_skills_catalog(skills: &[(&str, &str, &str)]) -> (r: String)
    ensures
        r@ == compose_catalog(skill_triples(skills@)),
{
    let ghost all = skill_triples(skills@);
    let mut body = String::new();
    let mut any = false;
    let mut i: usize = 0;
    while i < skills.len()
        invariant
            i <= skills@.len(),
            all == skill_triples(skills@),
            any == (compose_elements(all.take(i as int)).len() > 0),
            body@ == join_lines(compose_elements(all.take(i as int))),
        decreases skills@.len() - i,
    {
        let (name, description, location) = skills[i];
        assert(all.take(i + 1).drop_last() =~= all.take(i as int));
        assert(all.take(i + 1).last() == (name@, description@, location@));
        if is_compose_name_exec(name) {
            let element = skill_element_exec(name, description, location);
            if any {
                body.append("\n");
            } else {
                assert(body@ =~= Seq::<char>::empty());
            }
            body.append(element.as_str());
            proof {
                let prev = compose_elements(all.take(i as int));
                let next = compose_elements(all.take(i + 1));
                assert(next == prev.push(element@));
                if prev.len() > 0 {
                    assert(next.drop_last() =~= prev);
                } else {
                    assert(next =~= seq![element@]);
                }
            }
            any = true;
        }
        i = i + 1;
    }
    assert(all.take(skills@.len() as int) =~= all);
    if !any {
        return String::new();
    }
    let mut out = String::new();
    out.append("<compose_skills>\n");
    out.append(body.as_str());
    out.append("\n</compose_skills>");
    out
}

/// A loaded skill as the catalog reads it.
#[derive(Debug, PartialEq, Eq)]
pub struct LoadedSkill {
    pub name: String,
    pub description: String,
    /// Where the skill's `SKILL.md` is, as displayed.
    pub location: String,
    /// Whether the skill is enabled.
    pub enabled: bool,
}

/// The skills that are enabled, as catalog triples.
pub open spec fn enabled_triples(skills: Seq<LoadedSkill>) -> Seq<(Seq<char>, Seq<char>, Seq<char>)>
    decreases skills.len(),
{
    if skills.len() == 0 {
        seq![]
    } else {
        let rest = enabled_triples(skills.drop_last());
        let s = skills.last();
        if s.enabled {
            rest.push((s.name@, s.description@, s.location@))
        } else {
            rest
        }
    }
}

/// Whether a loaded skill is enabled.
pub open spec fn is_enabled_skill() -> spec_fn(LoadedSkill) -> bool {
    |s: LoadedSkill| s.enabled
}

/// A loaded skill's name, description and location.
pub open spec fn skill_triple() -> spec_fn(LoadedSkill) -> (Seq<char>, Seq<char>, Seq<char>) {
    |s: LoadedSkill| (s.name@, s.description@, s.location@)
}

/// Whether a catalog triple names a compose skill.
pub open spec fn has_compose_name() -> spec_fn((Seq<char>, Seq<char>, Seq<char>)) -> bool {
    |t: (Seq<char>, Seq<char>, Seq<char>)| is_compose_name(t.0)
}

/// The `<skill>` element of a catalog triple.
pub open spec fn triple_element() -> spec_fn((Seq<char>, Seq<char>, Seq<char>)) -> Seq<char> {
    |t: (Seq<char>, Seq<char>, Seq<char>)| skill_element(t.0, t.1, t.2)
}

/// The skills passed on to the catalog are exactly the enabled ones, in
/// order, each with its own name, description and location.
pub proof fn lemma_enabled_triples_are_the_enabled_skills(skills: Seq<LoadedSkill>)
    ensures
        enabled_triples(skills) == skills.filter(is_enabled_skill()).map_values(skill_triple()),
    decreases skills.len(),
{
    reveal(Seq::filter);
    if skills.len() > 0 {
        lemma_enabled_triples_are_the_enabled_skills(skills.drop_last());
        let rest = skills.drop_last().filter(is_enabled_skill());
        if skills.last().enabled {
            assert(skills.filter(is_enabled_skill()) == rest.push(skills.last()));
            assert(rest.push(skills.last()).map_values(skill_triple()) =~= rest.map_values(
                skill_triple(),
            ).push((skills.last().name@, skills.last().description@, skills.last().location@)));
        } else {
            assert(skills.filter(is_enabled_skill()) == rest);
        }
    } else {
        assert(skills.filter(is_enabled_skill()) =~= Seq::<LoadedSkill>::empty());
        assert(enabled_triples(skills) =~= skills.filter(is_enabled_skill()).map_values(
            skill_triple(),
        ));
    }
}

/// The catalog lists one `<skill>` element for every skill with a compose
/// name, in order, and none for any other skill.
pub proof fn lemma_catalog_elements_are_the_compose_skills(skills: Seq<(Seq<char>, Seq<char>, Seq<char>)>)
    ensures
        compose_elements(skills) == skills.filter(has_compose_name()).map_values(triple_element()),
    decreases skills.len(),
{
    reveal(Seq::filter);
    if skills.len() > 0 {
        lemma_catalog_elements_are_the_compose_skills(skills.drop_last());
        let rest = skills.drop_last().filter(has_compose_name());
        let t = skills.last();
        if is_compose_name(t.0) {
            assert(skills.filter(has_compose_name()) == rest.push(t));
            assert(rest.push(t).map_values(triple_element()) =~= rest.map_values(triple_element()).push(
                skill_element(t.0, t.1, t.2),
            ));
        } else {
            assert(skills.filter(has_compose_name()) == rest);
        }
    } else {
        assert(skills.filter(has_compose_name()) =~= Seq::<(Seq<char>, Seq<char>, Seq<char>)>::empty());
        assert(compose_elements(skills) =~= skills.filter(has_compose_name()).map_values(
            triple_element(),
        ));
    }
}

/// The catalog built from loaded skills lists exactly the enabled skills
/// with a compose name, in order, one `<skill>` element each.
pub proof fn lemma_outcome_catalog_lists_enabled_compose_skills(skills: Seq<LoadedSkill>)
    ensures
        compose_elements(enabled_triples(skills)) == skills.filter(is_enabled_skill()).map_values(
            skill_triple(),
        ).filter(has_compose_name()).map_values(triple_element()),
{
    lemma_enabled_triples_are_the_enabled_skills(skills);
    lemma_catalog_elements_are_the_compose_skills(enabled_triples(skills));
}

/// Build a `<compose_skills>` catalog from loaded skill metadata: the enabled
/// compose skills, in order (the catalog itself leaves out the other names).
pub fn build_compose_skills_catalog_from_outcome(skills: &Vec<LoadedSkill>) -> (r: String)
    ensures
        r@ == compose_catalog(enabled_triples(skills@)),
{
    let mut entries: Vec<(&str, &str, &str)> = Vec::new();
    let mut i: usize = 0;
    while i < skills.len()
        invariant
            i <= skills@.len(),
            skill_triples(entries@) == enabled_triples(skills@.take(i as int)),
        decreases skills@.len() - i,
    {
        let skill = &skills[i];
        assert(skills@.take(i + 1).drop_last() =~= skills@.take(i as int));
        if skill.enabled {
            let ghost before = entries@;
            entries.push((skill.name.as_str(), skill.description.as_str(), skill.location.as_str()));
            assert(skill_triples(entries@) =~= skill_triples(before).push(
                (skill.name@, skill.description@, skill.location@),
            ));
        }
        i = i + 1;
    }
    assert(skills@.take(skills@.len() as int) =~= skills@);
    build_compose_skills_catalog(entries.as_slice())
}

} // verus!
