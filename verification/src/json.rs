//! The parts of a `serde_json::Value` that the library reads and edits, with
//! trusted contracts over named models of its contents.
use vstd::prelude::*;

verus! {

#[verifier::external_type_specification]
#[verifier::external_body]
pub struct ExJsonValue(serde_json::Value);

#[verifier::external_type_specification]
#[verifier::external_body]
pub struct ExJsonError(serde_json::Error);

/// A JSON value nested inside an object member, as far as the library looks.
pub enum JsonLeaf {
    Null,
    Bool(bool),
    Str(Seq<char>),
    Other,
}

/// A member of a JSON object, as far as the library looks: nested objects are
/// seen one level deep.
pub enum JsonField {
    Null,
    Bool(bool),
    Str(Seq<char>),
    Object(Map<Seq<char>, JsonLeaf>),
    Other,
}

/// Whether a JSON value is an object.
pub uninterp spec fn json_is_object(v: serde_json::Value) -> bool;

/// The members of a JSON object (empty for any other value).
pub uninterp spec fn json_members(v: serde_json::Value) -> Map<Seq<char>, JsonField>;

/// The member `key` of a JSON object, whole, as `serde_json::Value::get`
/// finds it: `None` when the value is no object or has no such member.
pub uninterp spec fn json_member_value(v: serde_json::Value, key: Seq<char>) -> Option<serde_json::Value>;

/// Member `key` of the object held in member `field`, whole.
pub open spec fn json_nested_value(v: serde_json::Value, field: Seq<char>, key: Seq<char>) -> Option<
    serde_json::Value,
> {
    match json_member_value(v, field) {
        Some(inner) => json_member_value(inner, key),
        None => None,
    }
}

/// Whether member `field` of `v` is an object whose member `key` is the
/// boolean `b`.
pub open spec fn nested_bool_is(v: serde_json::Value, field: Seq<char>, key: Seq<char>, b: bool) -> bool {
    &&& json_members(v).dom().contains(field)
    &&& json_members(v)[field] is Object
    &&& json_members(v)[field]->Object_0.dom().contains(key)
    &&& json_members(v)[field]->Object_0[key] == JsonLeaf::Bool(b)
}

/// What `serde_json::from_str::<Value>` gives for a text: `None` when it
/// rejects the text, otherwise whether the value is an object and its members.
pub uninterp spec fn parsed_json(text: Seq<char>) -> Option<(bool, Map<Seq<char>, JsonField>)>;

/// Calls `serde_json::from_str::<serde_json::Value>`.  The contract ties the
/// result to the named parse of the text; which texts parse, and to what, is
/// left to the name.
#[verifier::external_body]
pub(crate) fn parse_json(text: &str) -> (r: Result<serde_json::Value, serde_json::Error>)
    ensures
        r is Ok <==> parsed_json(text@) is Some,
        r matches Ok(v) ==> parsed_json(text@) == Some((json_is_object(v), json_members(v))),
{
    serde_json::from_str::<serde_json::Value>(text)
}

/// Calls `serde_json::Error`'s `Display` impl.  Nothing is stated of the text.
#[verifier::external_body]
pub(crate) fn json_error_message(e: &serde_json::Error) -> String {
    e.to_string()
}

/// A member as the library reads it.
#[derive(Debug, PartialEq, Eq)]
pub enum JsonFieldValue {
    Absent,
    Null,
    Bool(bool),
    Str(String),
    Object,
    Other,
}

/// `r` is what the member `key` of `v` looks like: absent when `v` is no
/// object or has no such member.
pub open spec fn reads_member(v: serde_json::Value, key: Seq<char>, r: JsonFieldValue) -> bool {
    if !json_is_object(v) || !json_members(v).dom().contains(key) {
        r == JsonFieldValue::Absent
    } else {
        match json_members(v)[key] {
            JsonField::Null => r == JsonFieldValue::Null,
            JsonField::Bool(b) => r == JsonFieldValue::Bool(b),
            JsonField::Str(s) => r is Str && r->Str_0@ == s,
            JsonField::Object(_) => r == JsonFieldValue::Object,
            JsonField::Other => r == JsonFieldValue::Other,
        }
    }
}

/// Calls `serde_json::Value::get` with a member name and reports which kind
/// of value it found.
#[verifier::external_body]
pub(crate) fn json_member(v: &serde_json::Value, key: &str) -> (r: JsonFieldValue)
    ensures
        reads_member(*v, key@, r),
{
    match v.get(key) {
        None => JsonFieldValue::Absent,
        Some(serde_json::Value::Null) => JsonFieldValue::Null,
        Some(serde_json::Value::Bool(b)) => JsonFieldValue::Bool(*b),
        Some(serde_json::Value::String(s)) => JsonFieldValue::Str(s.clone()),
        Some(serde_json::Value::Object(_)) => JsonFieldValue::Object,
        Some(_) => JsonFieldValue::Other,
    }
}

/// Calls `serde_json::Value`'s `IndexMut` with a member name, twice: sets
/// `field.key` to the boolean `b` inside member `field`, an object.
#[verifier::external_body]
pub(crate) fn json_insert_bool_into_member(v: &mut serde_json::Value, field: &str, key: &str, b: bool)
    requires
        json_is_object(*old(v)),
        json_members(*old(v)).dom().contains(field@),
        json_members(*old(v))[field@] is Object,
    ensures
        json_is_object(*final(v)),
        json_members(*final(v)) == json_members(*old(v)).insert(
            field@,
            JsonField::Object(json_members(*old(v))[field@]->Object_0.insert(key@, JsonLeaf::Bool(b))),
        ),
        forall|k: Seq<char>|
            k != field@ ==> #[trigger] json_member_value(*final(v), k) == json_member_value(*old(v), k),
        forall|k: Seq<char>|
            k != key@ ==> #[trigger] json_nested_value(*final(v), field@, k) == json_nested_value(
                *old(v),
                field@,
                k,
            ),
        nested_bool_is(*old(v), field@, key@, b) ==> *final(v) == *old(v),
{
    v[field][key] = serde_json::Value::Bool(b);
}

/// Calls `serde_json::Value`'s `IndexMut` with a member name: sets member
/// `field` of an object to a new object holding only `key: b`.
#[verifier::external_body]
pub(crate) fn json_set_member_to_bool_object(v: &mut serde_json::Value, field: &str, key: &str, b: bool)
    requires
        json_is_object(*old(v)),
    ensures
        json_is_object(*final(v)),
        json_members(*final(v)) == json_members(*old(v)).insert(
            field@,
            JsonField::Object(Map::empty().insert(key@, JsonLeaf::Bool(b))),
        ),
        forall|k: Seq<char>|
            k != field@ ==> #[trigger] json_member_value(*final(v), k) == json_member_value(*old(v), k),
        forall|k: Seq<char>| k != key@ ==> #[trigger] json_nested_value(*final(v), field@, k) is None,
{
    v[field] = serde_json::Value::Object(serde_json::Map::from_iter([(key.to_owned(), serde_json::Value::Bool(b))]));
}

} // verus!
