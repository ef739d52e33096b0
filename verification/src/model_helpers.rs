//! Model-name helpers and request shaping for OpenAI-compatible chat
//! endpoints.
use vstd::prelude::*;
use vstd::string::StringSliceAdditionalSpecFns;
use vstd::string::StrSliceExecFns;
use crate::json::{
    json_insert_bool_into_member, json_is_object, json_member, json_member_value, json_members,
    json_nested_value, json_set_member_to_bool_object, nested_bool_is, JsonField, JsonFieldValue,
    JsonLeaf,
};

verus! {

/// Errors raised while bridging Responses and Chat Completions payloads.
#[derive(Debug, PartialEq, Eq)]
pub enum BridgeError {
    TransformError(String),
}

impl BridgeError {
    /// The human-readable message, `transform error: <detail>`.
    pub fn message(&self) -> (r: String)
        ensures
            r@ == match self {
                BridgeError::TransformError(detail) => "transform error: "@ + detail@,
            },
    {
        match self {
            BridgeError::TransformError(detail) => {
                let mut out = String::new();
                proof { reveal_strlit("transform error: "); }
                out.append("transform error: ");
                out.append(detail.as_str());
                out
            },
        }
    }
}

/// True for the bytes of an ASCII decimal digit.
pub open spec fn is_ascii_digit_byte(b: u8) -> bool {
    0x30 <= b && b <= 0x39
}

/// An OpenAI o-series model name: longer than one byte, starting with `o`,
/// whose second byte is an ASCII digit (`o1`, `o3`, `o4-mini`, ...).
pub open spec fn is_o_series_bytes(b: Seq<u8>) -> bool {
    &&& b.len() > 1
    &&& b[0] == 0x6fu8
    &&& is_ascii_digit_byte(b[1])
}

/// Detect OpenAI o-series reasoning models (o1, o3, o4-mini, etc.)
pub fn is_openai_o_series(model: &str) -> (r: bool)
    ensures
        r == is_o_series_bytes(model.spec_bytes()),
{
    let bytes = model.as_bytes();
    let n = bytes.len();
    if n > 1 {
        bytes[0] == 0x6fu8 && 0x30u8 <= bytes[1] && bytes[1] <= 0x39u8
    } else {
        false
    }
}

/// What `str::to_lowercase` returns: the text under Unicode's lowercase
/// mapping, which maps most characters one by one but lets some depend on
/// their neighbours (a word-final capital sigma becomes `ς`).
pub uninterp spec fn unicode_lowercase(s: Seq<char>) -> Seq<char>;

/// Calls `str::to_lowercase`.  The contract only names the result; the Unicode
/// lowercase mapping itself is not written out.
#[verifier::external_body]
fn to_lowercase(s: &str) -> (r: String)
    ensures
        r@ == unicode_lowercase(s@),
{
    s.to_lowercase()
}

/// A lowercased model name of a GPT generation five or newer: `gpt-` followed
/// by an ASCII digit of at least `5`.
pub open spec fn is_gpt_five_or_newer(lowered: Seq<char>) -> bool {
    &&& lowered.len() >= 5
    &&& lowered[0] == 'g'
    &&& lowered[1] == 'p'
    &&& lowered[2] == 't'
    &&& lowered[3] == '-'
    &&& '5' <= lowered[4] && lowered[4] <= '9'
}

/// Decides, on an already lowercased model name, whether it names a GPT
/// generation that accepts `reasoning_effort`.
pub fn lowered_gpt_supports_reasoning_effort(lowered: &str) -> (r: bool)
    ensures
        r == is_gpt_five_or_newer(lowered@),
{
    let n = lowered.unicode_len();
    if n < 5 {
        return false;
    }
    let c4 = lowered.get_char(4);
    lowered.get_char(0) == 'g' && lowered.get_char(1) == 'p' && lowered.get_char(2) == 't'
        && lowered.get_char(3) == '-' && '5' <= c4 && c4 <= '9'
}

/// Detect OpenAI models that support `reasoning_effort`.
pub fn supports_reasoning_effort(model: &str) -> (r: bool)
    ensures
        r == (is_o_series_bytes(model.spec_bytes()) || is_gpt_five_or_newer(
            unicode_lowercase(model@),
        )),
{
    if is_openai_o_series(model) {
        return true;
    }
    let lowered = to_lowercase(model);
    lowered_gpt_supports_reasoning_effort(lowered.as_str())
}

/// A chat request asks to be streamed: it is an object whose `stream` member
/// is `true`.
pub open spec fn requests_streaming(request: serde_json::Value) -> bool {
    &&& json_is_object(request)
    &&& json_members(request).dom().contains("stream"@)
    &&& json_members(request)["stream"@] == JsonField::Bool(true)
}

/// The `stream_options` object after `include_usage: true` is set in it: an
/// existing object keeps its other members, anything else is replaced.
pub open spec fn stream_options_with_usage(request: serde_json::Value) -> Map<Seq<char>, JsonLeaf> {
    let members = json_members(request);
    let kept = if members.dom().contains("stream_options"@) && members["stream_options"@] is Object {
        members["stream_options"@]->Object_0
    } else {
        Map::empty()
    };
    kept.insert("include_usage"@, JsonLeaf::Bool(true))
}

/// Whether `request` already streams with `stream_options.include_usage`
/// set to `true`.
pub open spec fn includes_usage(request: serde_json::Value) -> bool {
    requests_streaming(request) && nested_bool_is(request, "stream_options"@, "include_usage"@, true)
}

/// `injected` is `request` with usage requested for a streaming request:
/// non-streaming requests are unchanged; otherwise `stream_options` becomes
/// the object it was (or a new one) with `include_usage: true`, its other
/// members and every other member of the request keep their values, and a
/// request that already asks for usage is unchanged.
pub open spec fn usage_injected(request: serde_json::Value, injected: serde_json::Value) -> bool {
    if !requests_streaming(request) {
        injected == request
    } else {
        &&& json_is_object(injected)
        &&& json_members(injected) == json_members(request).insert(
            "stream_options"@,
            JsonField::Object(stream_options_with_usage(request)),
        )
        &&& forall|k: Seq<char>|
            k != "stream_options"@ ==> #[trigger] json_member_value(injected, k) == json_member_value(
                request,
                k,
            )
        &&& forall|k: Seq<char>|
            k != "include_usage"@ ==> #[trigger] json_nested_value(injected, "stream_options"@, k) == (
            if json_members(request).dom().contains("stream_options"@)
                && json_members(request)["stream_options"@] is Object {
                json_nested_value(request, "stream_options"@, k)
            } else {
                None
            })
        &&& includes_usage(request) ==> injected == request
    }
}

/// Injecting usage a second time leaves the request as the first injection
/// left it.
pub proof fn lemma_usage_injection_is_idempotent(
    request: serde_json::Value,
    once: serde_json::Value,
    twice: serde_json::Value,
)
    requires
        usage_injected(request, once),
        usage_injected(once, twice),
    ensures
        twice == once,
{
    reveal_strlit("stream");
    reveal_strlit("stream_options");
    reveal_strlit("include_usage");
    assert("stream"@.len() != "stream_options"@.len());
    if requests_streaming(request) {
        assert(json_members(once)["stream"@] == json_members(request)["stream"@]);
        assert(requests_streaming(once));
        assert(includes_usage(once));
    }
}

/// Ensure streaming chat requests include usage in the final chunk.
pub fn inject_openai_stream_include_usage(result: &mut serde_json::Value)
    ensures
        usage_injected(*old(result), *final(result)),
{
    let is_stream = match json_member(result, "stream") {
        JsonFieldValue::Bool(b) => b,
        _ => false,
    };
    if !is_stream {
        return;
    }
    match json_member(result, "stream_options") {
        JsonFieldValue::Object => {
            json_insert_bool_into_member(result, "stream_options", "include_usage", true);
        },
        _ => {
            json_set_member_to_bool_object(result, "stream_options", "include_usage", true);
        },
    }
}

} // verus!
