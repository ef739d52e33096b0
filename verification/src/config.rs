//! Reading `config.toml` and `auth.json`: which provider is active, which
//! providers are enabled, and how OpenAI's own credentials are stored.
use vstd::prelude::*;
use crate::json::{json_error_message, json_member, parse_json, parsed_json, JsonField, JsonFieldValue};
use crate::picker::ErrorKind;
use crate::providers::{AuthStatus, OPENAI_PROVIDER_ID};
use crate::text::str_eq;

verus! {

#[verifier::external_type_specification]
#[verifier::external_body]
pub struct ExTomlValue(toml::Value);

#[verifier::external_type_specification]
#[verifier::external_body]
pub struct ExTomlError(toml::de::Error);

/// A top-level entry of a TOML document, as far as the library looks: a
/// string, an array (with the strings among its items), or anything else.
pub enum TomlField {
    Str(Seq<char>),
    Array(Seq<Option<Seq<char>>>),
    Other,
}

/// The entries of a TOML table (empty for any other value).
pub uninterp spec fn toml_members(v: toml::Value) -> Map<Seq<char>, TomlField>;

/// What `toml::from_str::<toml::Value>` gives for a text: `None` when it
/// rejects the text, otherwise the entries of the document's table.
pub uninterp spec fn parsed_toml(text: Seq<char>) -> Option<Map<Seq<char>, TomlField>>;

/// Calls `toml::from_str::<toml::Value>`.  The contract ties the result to
/// the named parse of the text.
#[verifier::external_body]
fn parse_toml(text: &str) -> (r: Result<toml::Value, toml::de::Error>)
    ensures
        r is Ok <==> parsed_toml(text@) is Some,
        r matches Ok(v) ==> parsed_toml(text@) == Some(toml_members(v)),
{
    toml::from_str::<toml::Value>(text)
}

/// Calls `toml::de::Error`'s `Display` impl.  Nothing is stated of the text.
#[verifier::external_body]
fn toml_error_message(e: &toml::de::Error) -> String {
    e.to_string()
}

/// An entry as the library reads it.
pub enum TomlFieldValue {
    Absent,
    Str(String),
    Array(Vec<Option<String>>),
    Other,
}

/// Calls `toml::Value::get` with a key and reports the entry found: a string,
/// an array (each item's string, if it is one), or another kind of value.
#[verifier::external_body]
fn toml_member(v: &toml::Value, key: &str) -> (r: TomlFieldValue)
    ensures
        !toml_members(*v).dom().contains(key@) ==> r is Absent,
        toml_members(*v).dom().contains(key@) ==> match toml_members(*v)[key@] {
            TomlField::Str(s) => r is Str && r->Str_0@ == s,
            TomlField::Array(items) => r is Array && r->Array_0@.map_values(
                |item: Option<String>|
                    match item {
                        Some(s) => Some(s@),
                        None => None,
                    },
            ) == items,
            TomlField::Other => r is Other,
        },
{
    match v.get(key) {
        None => TomlFieldValue::Absent,
        Some(toml::Value::String(s)) => TomlFieldValue::Str(s.clone()),
        Some(toml::Value::Array(items)) => TomlFieldValue::Array(
            items.iter().map(
                |item|
                    match item {
                        toml::Value::String(s) => Some(s.clone()),
                        _ => None,
                    },
            ).collect(),
        ),
        Some(_) => TomlFieldValue::Other,
    }
}

/// A configuration file that could not be parsed.
#[derive(Debug, PartialEq, Eq)]
pub enum ConfigError {
    InvalidData(String),
}

impl ConfigError {
    pub fn kind(&self) -> (r: ErrorKind)
        ensures
            r == ErrorKind::InvalidData,
    {
        ErrorKind::InvalidData
    }

    pub fn message(&self) -> (r: String)
        ensures
            match self {
                ConfigError::InvalidData(m) => r@ == m@,
            },
    {
        match self {
            ConfigError::InvalidData(m) => m.clone(),
        }
    }
}

/// The active provider named by a parsed `config.toml`: its `model_provider`
/// string, or OpenAI when there is none.
pub open spec fn active_provider_in(members: Map<Seq<char>, TomlField>) -> Seq<char> {
    if members.dom().contains("model_provider"@) && members["model_provider"@] is Str {
        members["model_provider"@]->Str_0
    } else {
        OPENAI_PROVIDER_ID@
    }
}

/// The active provider id given the text of `config.toml`.
pub fn active_provider_id_from_config(contents: &str) -> (r: Result<String, ConfigError>)
    ensures
        parsed_toml(contents@) is None ==> r is Err,
        parsed_toml(contents@) matches Some(members) ==> (r matches Ok(id) && id@
            == active_provider_in(members)),
{
    let doc = match parse_toml(contents) {
        Ok(doc) => doc,
        Err(e) => return Err(ConfigError::InvalidData(toml_error_message(&e))),
    };
    match toml_member(&doc, "model_provider") {
        TomlFieldValue::Str(id) => Ok(id),
        _ => Ok(OPENAI_PROVIDER_ID.to_owned()),
    }
}

/// The strings among an array's items, in order.
pub open spec fn present_strings(items: Seq<Option<Seq<char>>>) -> Seq<Seq<char>>
    decreases items.len(),
{
    if items.len() == 0 {
        seq![]
    } else {
        let rest = present_strings(items.drop_last());
        match items.last() {
            Some(s) => rest.push(s),
            None => rest,
        }
    }
}

/// The strings of a top-level array entry, if the entry is an array.
pub open spec fn string_array_in(members: Map<Seq<char>, TomlField>, key: Seq<char>) -> Option<
    Seq<Seq<char>>,
> {
    if members.dom().contains(key) && members[key] is Array {
        Some(present_strings(members[key]->Array_0))
    } else {
        None
    }
}

/// Which providers `config.toml` lets `login` offer: none listed in
/// `disabled_providers`, and only those in `enabled_providers` when that list
/// is given.
#[derive(Debug, PartialEq, Eq)]
pub struct ProviderFilter {
    pub enabled: Option<Vec<String>>,
    pub disabled: Vec<String>,
}

pub open spec fn string_views(v: Seq<String>) -> Seq<Seq<char>> {
    v.map_values(|s: String| s@)
}

impl ProviderFilter {
    pub open spec fn allows_spec(&self, id: Seq<char>) -> bool {
        &&& !string_views(self.disabled@).contains(id)
        &&& match self.enabled {
            Some(enabled) => string_views(enabled@).contains(id),
            None => true,
        }
    }

    /// Whether the filter keeps provider `id`.
    pub fn allows(&self, id: &str) -> (r: bool)
        ensures
            r == self.allows_spec(id@),
    {
        if contains_string(&self.disabled, id) {
            return false;
        }
        match &self.enabled {
            Some(enabled) => contains_string(enabled, id),
            None => true,
        }
    }
}

fn contains_string(list: &Vec<String>, id: &str) -> (r: bool)
    ensures
        r == string_views(list@).contains(id@),
{
    let mut i: usize = 0;
    while i < list.len()
        invariant
            i <= list@.len(),
            forall|j: int| 0 <= j < i ==> list@[j]@ != id@,
        decreases list@.len() - i,
    {
        if str_eq(list[i].as_str(), id) {
            assert(string_views(list@)[i as int] == id@);
            return true;
        }
        i = i + 1;
    }
    assert forall|j: int| 0 <= j < string_views(list@).len() implies string_views(list@)[j] != id@ by {
        assert(string_views(list@)[j] == list@[j]@);
    }
    false
}

fn present_string_items(items: &Vec<Option<String>>) -> (r: Vec<String>)
    ensures
        string_views(r@) == present_strings(
            items@.map_values(
                |item: Option<String>|
                    match item {
                        Some(s) => Some(s@),
                        None => None,
                    },
            ),
        ),
{
    let ghost view = items@.map_values(
        |item: Option<String>|
            match item {
                Some(s) => Some(s@),
                None => None,
            },
    );
    let mut out: Vec<String> = Vec::new();
    let mut i: usize = 0;
    while i < items.len()
        invariant
            i <= items@.len(),
            view == items@.map_values(
                |item: Option<String>|
                    match item {
                        Some(s) => Some(s@),
                        None => None,
                    },
            ),
            string_views(out@) == present_strings(view.take(i as int)),
        decreases items@.len() - i,
    {
        assert(view.take(i + 1).drop_last() =~= view.take(i as int));
        match &items[i] {
            Some(s) => {
                let ghost before = out@;
                out.push(s.clone());
                assert(string_views(out@) =~= string_views(before).push(s@));
            },
            None => {},
        }
        i = i + 1;
    }
    assert(view.take(items@.len() as int) =~= view);
    out
}

/// The provider filter of a parsed `config.toml`.
pub open spec fn filter_in(members: Map<Seq<char>, TomlField>, filter: ProviderFilter) -> bool {
    &&& match (filter.enabled, string_array_in(members, "enabled_providers"@)) {
        (Some(e), Some(listed)) => string_views(e@) == listed,
        (None, None) => true,
        _ => false,
    }
    &&& string_views(filter.disabled@) == match string_array_in(members, "disabled_providers"@) {
        Some(listed) => listed,
        None => seq![],
    }
}

/// Reads the provider filter from the text of `config.toml`.
pub fn provider_filter_from_config(contents: &str) -> (r: Result<ProviderFilter, ConfigError>)
    ensures
        parsed_toml(contents@) is None ==> r is Err,
        parsed_toml(contents@) matches Some(members) ==> (r matches Ok(filter) && filter_in(
            members,
            filter,
        )),
{
    let doc = match parse_toml(contents) {
        Ok(doc) => doc,
        Err(e) => return Err(ConfigError::InvalidData(toml_error_message(&e))),
    };
    let enabled = match toml_member(&doc, "enabled_providers") {
        TomlFieldValue::Array(items) => Some(present_string_items(&items)),
        _ => None,
    };
    let disabled = match toml_member(&doc, "disabled_providers") {
        TomlFieldValue::Array(items) => present_string_items(&items),
        _ => Vec::new(),
    };
    assert(disabled@.len() == 0 ==> string_views(disabled@) =~= Seq::<Seq<char>>::empty());
    Ok(ProviderFilter { enabled, disabled })
}

/// The ids, in order, that a filter keeps.
pub open spec fn kept_ids(ids: Seq<Seq<char>>, filter: ProviderFilter) -> Seq<Seq<char>>
    decreases ids.len(),
{
    if ids.len() == 0 {
        seq![]
    } else {
        let rest = kept_ids(ids.drop_last(), filter);
        if filter.allows_spec(ids.last()) {
            rest.push(ids.last())
        } else {
            rest
        }
    }
}

/// A filter keeps exactly the listed providers that it allows: none that
/// `disabled_providers` names, and, when `enabled_providers` is given, only
/// those it names.
pub proof fn lemma_kept_ids_are_the_allowed_ids(ids: Seq<Seq<char>>, filter: ProviderFilter, id: Seq<char>)
    ensures
        kept_ids(ids, filter).contains(id) <==> ids.contains(id) && filter.allows_spec(id),
    decreases ids.len(),
{
    if ids.len() > 0 {
        lemma_kept_ids_are_the_allowed_ids(ids.drop_last(), filter, id);
        assert(ids =~= ids.drop_last().push(ids.last()));
        if ids.contains(id) && !ids.drop_last().contains(id) {
            let k = choose|k: int| 0 <= k < ids.len() && ids[k] == id;
            if k < ids.len() - 1 {
                assert(ids.drop_last()[k] == id);
            }
        }
        if ids.drop_last().contains(id) {
            let k = choose|k: int| 0 <= k < ids.drop_last().len() && ids.drop_last()[k] == id;
            assert(ids[k] == id);
        }
        let rest = kept_ids(ids.drop_last(), filter);
        if filter.allows_spec(ids.last()) {
            if rest.push(ids.last()).contains(id) && !rest.contains(id) {
                let k = choose|k: int| 0 <= k < rest.len() + 1 && rest.push(ids.last())[k] == id;
                if k < rest.len() {
                    assert(rest[k] == id);
                }
            }
            if rest.contains(id) {
                let k = choose|k: int| 0 <= k < rest.len() && rest[k] == id;
                assert(rest.push(ids.last())[k] == id);
            }
            assert(rest.push(ids.last())[rest.len() as int] == ids.last());
        }
    }
}

/// A provider that `disabled_providers` names is never offered, even when
/// `enabled_providers` names it too.
pub proof fn lemma_disabled_provider_is_never_kept(ids: Seq<Seq<char>>, filter: ProviderFilter, id: Seq<char>)
    requires
        string_views(filter.disabled@).contains(id),
    ensures
        !kept_ids(ids, filter).contains(id),
{
    lemma_kept_ids_are_the_allowed_ids(ids, filter, id);
}

/// The providers that `login` may offer: all of `provider_ids` when there is
/// no `config.toml` (`config` is `None`), otherwise those that its filter
/// allows, in the given order.
pub fn filter_providers_for_config(provider_ids: &Vec<String>, config: Option<&str>) -> (r: Result<
    Vec<String>,
    ConfigError,
>)
    ensures
        config is None ==> (r matches Ok(kept) && string_views(kept@) == string_views(provider_ids@)),
        config matches Some(text) ==> {
            &&& parsed_toml(text@) is None ==> r is Err
            &&& parsed_toml(text@) matches Some(members) ==> (r matches Ok(kept) && exists|
                filter: ProviderFilter,
            | #[trigger] filter_in(members, filter) && string_views(kept@) == kept_ids(
                string_views(provider_ids@),
                filter,
            ))
        },
{
    let text = match config {
        None => {
            let mut all: Vec<String> = Vec::new();
            let mut i: usize = 0;
            while i < provider_ids.len()
                invariant
                    i <= provider_ids@.len(),
                    string_views(all@) =~= string_views(provider_ids@.take(i as int)),
                decreases provider_ids@.len() - i,
            {
                let ghost before = all@;
                all.push(provider_ids[i].clone());
                assert(provider_ids@.take(i + 1) =~= provider_ids@.take(i as int).push(provider_ids@[i as int]));
                assert(string_views(all@) =~= string_views(before).push(provider_ids@[i as int]@));
                i = i + 1;
            }
            assert(provider_ids@.take(provider_ids@.len() as int) =~= provider_ids@);
            return Ok(all);
        },
        Some(text) => text,
    };
    let filter = provider_filter_from_config(text)?;
    let ghost ids = string_views(provider_ids@);
    let mut kept: Vec<String> = Vec::new();
    let mut i: usize = 0;
    while i < provider_ids.len()
        invariant
            i <= provider_ids@.len(),
            ids == string_views(provider_ids@),
            string_views(kept@) == kept_ids(ids.take(i as int), filter),
        decreases provider_ids@.len() - i,
    {
        assert(ids.take(i + 1).drop_last() =~= ids.take(i as int));
        assert(ids.take(i + 1).last() == provider_ids@[i as int]@);
        if filter.allows(provider_ids[i].as_str()) {
            let ghost before = kept@;
            kept.push(provider_ids[i].clone());
            assert(string_views(kept@) =~= string_views(before).push(provider_ids@[i as int]@));
        }
        i = i + 1;
    }
    assert(ids.take(ids.len() as int) =~= ids);
    Ok(kept)
}

/// How OpenAI's own credentials are stored according to a parsed `auth.json`:
/// OAuth when it holds non-null `tokens`, an API key when `OPENAI_API_KEY` is
/// a non-empty string, otherwise none.
pub open spec fn auth_status_in(is_object: bool, members: Map<Seq<char>, JsonField>) -> Option<
    AuthStatus,
> {
    if is_object && members.dom().contains("tokens"@) && !(members["tokens"@] is Null) {
        Some(AuthStatus::OAuth)
    } else if is_object && members.dom().contains("OPENAI_API_KEY"@) && members["OPENAI_API_KEY"@] is Str
        && members["OPENAI_API_KEY"@]->Str_0.len() > 0 {
        Some(AuthStatus::ApiKey)
    } else {
        None
    }
}

/// OpenAI's credential status given the text of `auth.json`.
pub fn openai_auth_status_from_json(contents: &str) -> (r: Result<Option<AuthStatus>, ConfigError>)
    ensures
        parsed_json(contents@) is None ==> r is Err,
        parsed_json(contents@) matches Some(doc) ==> r == Ok::<Option<AuthStatus>, ConfigError>(
            auth_status_in(doc.0, doc.1),
        ),
{
    let value = match parse_json(contents) {
        Ok(value) => value,
        Err(e) => return Err(ConfigError::InvalidData(json_error_message(&e))),
    };
    match json_member(&value, "tokens") {
        JsonFieldValue::Absent | JsonFieldValue::Null => {},
        _ => return Ok(Some(AuthStatus::OAuth)),
    }
    match json_member(&value, "OPENAI_API_KEY") {
        JsonFieldValue::Str(key) => {
            if key.as_str().is_empty() {
                Ok(None)
            } else {
                Ok(Some(AuthStatus::ApiKey))
            }
        },
        _ => Ok(None),
    }
}

} // verus!
