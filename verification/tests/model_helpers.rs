use codex_providers::model_helpers::{
    inject_openai_stream_include_usage, is_openai_o_series, lowered_gpt_supports_reasoning_effort,
    supports_reasoning_effort, BridgeError,
};

#[test]
fn o_series_models_are_recognised() {
    assert!(is_openai_o_series("o1"));
    assert!(is_openai_o_series("o3-mini"));
    assert!(is_openai_o_series("o4-mini-high"));
    assert!(!is_openai_o_series("o"));
    assert!(!is_openai_o_series("omni"));
    assert!(!is_openai_o_series("gpt-4o"));
    assert!(!is_openai_o_series("O1"));
}

#[test]
fn reasoning_effort_support() {
    assert!(supports_reasoning_effort("o3"));
    assert!(supports_reasoning_effort("gpt-5"));
    assert!(supports_reasoning_effort("GPT-5.1-codex"));
    assert!(supports_reasoning_effort("gpt-9"));
    assert!(!supports_reasoning_effort("gpt-4o"));
    assert!(!supports_reasoning_effort("gpt-"));
    assert!(!supports_reasoning_effort("sonnet-4"));
    assert!(lowered_gpt_supports_reasoning_effort("gpt-5-mini"));
    assert!(!lowered_gpt_supports_reasoning_effort("GPT-5"));
}

fn parse(text: &str) -> serde_json::Value {
    serde_json::from_str(text).expect("valid JSON")
}

#[test]
fn stream_requests_gain_include_usage() {
    let mut request = parse(r#"{"model":"gpt-5","stream":true}"#);
    inject_openai_stream_include_usage(&mut request);
    assert_eq!(
        request,
        parse(r#"{"model":"gpt-5","stream":true,"stream_options":{"include_usage":true}}"#)
    );
}

#[test]
fn existing_stream_options_are_kept() {
    let mut request = parse(r#"{"stream":true,"stream_options":{"other":1,"include_usage":false}}"#);
    inject_openai_stream_include_usage(&mut request);
    assert_eq!(
        request,
        parse(r#"{"stream":true,"stream_options":{"other":1,"include_usage":true}}"#)
    );
    let again = request.clone();
    inject_openai_stream_include_usage(&mut request);
    assert_eq!(request, again);
}

#[test]
fn non_object_stream_options_are_replaced() {
    let mut request = parse(r#"{"stream":true,"stream_options":null}"#);
    inject_openai_stream_include_usage(&mut request);
    assert_eq!(
        request,
        parse(r#"{"stream":true,"stream_options":{"include_usage":true}}"#)
    );
}

#[test]
fn non_streaming_requests_are_left_alone() {
    for text in [r#"{"stream":false}"#, r#"{"model":"x"}"#, r#"{"stream":"true"}"#, "[1]"] {
        let mut request = parse(text);
        inject_openai_stream_include_usage(&mut request);
        assert_eq!(request, parse(text));
    }
}

#[test]
fn bridge_error_message() {
    assert_eq!(
        BridgeError::TransformError("bad".to_string()).message(),
        "transform error: bad"
    );
}
