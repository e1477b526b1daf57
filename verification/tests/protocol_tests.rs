//! Reading replies, classifying rejections and shaping request bodies.

use openai_rs::connector::chat_completions::{
    self, ChatCompletionsBody, Choice, ResponseMessage, StreamChoice, StreamChunk, StreamDelta,
};
use openai_rs::connector::responses::{
    self, ContentPart, OutputItem, ResponsesBody, StreamEvent, TEXT_DELTA_EVENT,
};
use openai_rs::{
    classify_rejection, is_endpoint_absent, is_wrong_api, should_retry_gate, ChatRequest,
    JsonSchema, Message, OpenAiError, ProtocolError, Transcript,
};

fn part(kind: &str, text: &str) -> ContentPart {
    ContentPart { kind: kind.to_string(), text: text.to_string() }
}

fn item(kind: &str, content: Vec<ContentPart>) -> OutputItem {
    OutputItem { kind: kind.to_string(), content }
}

fn message(content: Option<&str>, reasoning: Option<&str>) -> ResponseMessage {
    ResponseMessage {
        content: content.map(str::to_string),
        reasoning_content: reasoning.map(str::to_string),
    }
}

fn object_schema() -> serde_json::Value {
    let mut map = serde_json::Map::new();
    map.insert("type".to_string(), serde_json::Value::String("object".to_string()));
    serde_json::Value::Object(map)
}

#[test]
fn detects_the_switch_apis_signal() {
    let from_chat = r#"{"error":{"message":"model is not accessible via the /chat/completions endpoint","code":"unsupported_api_for_model"}}"#;
    let from_responses = r#"{"error":{"message":"model does not support Responses API.","code":"unsupported_api_for_model"}}"#;
    assert!(is_wrong_api(from_chat));
    assert!(is_wrong_api(from_responses));
}

#[test]
fn other_failures_do_not_trigger_a_pointless_switch() {
    assert!(!is_wrong_api(r#"{"error":{"code":"invalid_request_error"}}"#));
    assert!(!is_wrong_api(r#"{"error":{"message":"no code field"}}"#));
    assert!(!is_wrong_api("not json at all"));
    assert!(!is_wrong_api(""));
}

#[test]
fn a_code_that_is_not_a_string_is_no_signal() {
    assert!(!is_wrong_api(r#"{"error":{"code":7}}"#));
    assert!(!is_wrong_api(r#"{"error":"unsupported_api_for_model"}"#));
    assert!(!is_wrong_api(r#"[{"code":"unsupported_api_for_model"}]"#));
    assert!(!is_wrong_api(r#"{"code":"unsupported_api_for_model"}"#));
}

#[test]
fn treats_missing_endpoints_as_a_switch_signal() {
    assert!(is_endpoint_absent(404));
    assert!(is_endpoint_absent(405));
    assert!(is_endpoint_absent(501));
    assert!(!is_endpoint_absent(400));
    assert!(!is_endpoint_absent(403));
    assert!(!is_endpoint_absent(500));
}

#[test]
fn classifies_rejections() {
    let wrong = r#"{"error":{"code":"unsupported_api_for_model"}}"#;
    assert!(matches!(
        classify_rejection(400, wrong, true),
        ProtocolError::WrongApi(OpenAiError::Api { status: 400, .. })
    ));
    assert!(matches!(
        classify_rejection(404, "Not Found", false),
        ProtocolError::WrongApi(OpenAiError::Api { status: 404, .. })
    ));
    assert!(matches!(
        classify_rejection(400, "schema not supported", true),
        ProtocolError::SchemaUnsupported
    ));
    match classify_rejection(400, "schema not supported", false) {
        ProtocolError::Fatal(OpenAiError::Api { status, body }) => {
            assert_eq!(status, 400);
            assert_eq!(body, "schema not supported");
        }
        other => panic!("unexpected {other:?}"),
    }
    assert!(matches!(
        classify_rejection(500, "boom", true),
        ProtocolError::Fatal(OpenAiError::Api { status: 500, .. })
    ));
}

#[test]
fn protocol_errors_collapse_to_what_they_carry() {
    assert_eq!(
        ProtocolError::fatal(OpenAiError::EmptyResponse).into_error(),
        OpenAiError::EmptyResponse
    );
    assert_eq!(
        ProtocolError::WrongApi(OpenAiError::api(401, "x")).into_error(),
        OpenAiError::api(401, "x")
    );
    assert!(matches!(
        ProtocolError::SchemaUnsupported.into_error(),
        OpenAiError::Configuration(_)
    ));
}

#[test]
fn only_the_gating_403_is_retried_and_only_four_times() {
    assert!(should_retry_gate(403, 0));
    assert!(should_retry_gate(403, 3));
    assert!(!should_retry_gate(403, 4));
    assert!(!should_retry_gate(401, 0));
    assert!(!should_retry_gate(200, 0));
}

#[test]
fn concatenates_output_text_parts_of_message_items() {
    let body = ResponsesBody {
        output: vec![
            item("reasoning", vec![part("reasoning_text", "thinking...")]),
            item(
                "message",
                vec![
                    part("output_text", "Hello"),
                    part("refusal", "ignored"),
                    part("output_text", ", world"),
                ],
            ),
        ],
    };
    assert_eq!(body.into_text().as_deref(), Some("Hello, world"));
}

#[test]
fn empty_or_whitespace_output_is_none() {
    let empty = ResponsesBody { output: vec![] };
    assert_eq!(empty.into_text(), None);

    let blank = ResponsesBody {
        output: vec![item("message", vec![part("output_text", "   ")])],
    };
    assert_eq!(blank.into_text(), None);
}

#[test]
fn reasoning_only_output_yields_no_text() {
    let body = ResponsesBody {
        output: vec![item("reasoning", vec![part("reasoning_text", "hmm")])],
    };
    assert_eq!(body.into_text(), None);
}

#[test]
fn untyped_items_are_treated_as_messages() {
    let body = ResponsesBody {
        output: vec![item("", vec![part("output_text", "hi")])],
    };
    assert_eq!(body.into_text().as_deref(), Some("hi"));
}

#[test]
fn text_of_several_message_items_is_joined_untrimmed() {
    let body = ResponsesBody {
        output: vec![
            item("message", vec![part("output_text", " a")]),
            item("tool_call", vec![part("output_text", "x")]),
            item("message", vec![part("output_text", "b ")]),
        ],
    };
    assert_eq!(body.into_text().as_deref(), Some(" ab "));
}

#[test]
fn parses_text_delta_events_and_ignores_others() {
    let delta = StreamEvent {
        kind: TEXT_DELTA_EVENT.to_string(),
        delta: Some("tok".to_string()),
    };
    assert_eq!(delta.kind, "response.output_text.delta");
    assert_eq!(delta.into_delta().as_deref(), Some("tok"));

    let created = StreamEvent { kind: "response.created".to_string(), delta: None };
    assert_ne!(created.kind, TEXT_DELTA_EVENT);
    assert_eq!(created.into_delta(), None);

    let stray = StreamEvent { kind: "response.completed".to_string(), delta: Some("x".to_string()) };
    assert_eq!(stray.into_delta(), None);
}

#[test]
fn prefers_content_over_the_reasoning_channel() {
    let m = message(Some("answer"), Some("thoughts"));
    assert_eq!(m.into_text().as_deref(), Some("answer"));
}

#[test]
fn falls_back_to_the_reasoning_channel_when_content_is_blank() {
    let m = message(Some("   "), Some("answer"));
    assert_eq!(m.into_text().as_deref(), Some("answer"));

    let missing = message(None, Some("answer"));
    assert_eq!(missing.into_text().as_deref(), Some("answer"));
}

#[test]
fn both_channels_blank_yields_nothing() {
    let m = message(Some(""), None);
    assert_eq!(m.into_text(), None);
    assert_eq!(message(Some(" "), Some("\n")).into_text(), None);
}

#[test]
fn the_first_choice_carries_the_answer() {
    let body = ChatCompletionsBody {
        choices: vec![
            Choice { message: message(Some("first"), None) },
            Choice { message: message(Some("second"), None) },
        ],
    };
    assert_eq!(body.into_text().as_deref(), Some("first"));
    assert_eq!(ChatCompletionsBody { choices: vec![] }.into_text(), None);
}

#[test]
fn parses_stream_deltas() {
    let chunk = StreamChunk {
        choices: vec![StreamChoice { delta: StreamDelta { content: Some("tok".to_string()) } }],
    };
    assert_eq!(chunk.into_delta(), Some("tok".to_string()));

    let closing = StreamChunk {
        choices: vec![StreamChoice { delta: StreamDelta { content: None } }],
    };
    assert_eq!(closing.into_delta(), None);
    assert_eq!(StreamChunk { choices: vec![] }.into_delta(), None);
}

#[test]
fn recognises_the_done_sentinel() {
    assert!(chat_completions::is_done("[DONE]"));
    assert!(!chat_completions::is_done("[DONE] "));
    assert!(!chat_completions::is_done("{}"));
}

#[test]
fn serializes_the_schema_under_text_format() {
    let request = ChatRequest::new(vec![Message::user("hi")])
        .with_schema(JsonSchema::new("out", object_schema()));
    let body = responses::build_request("m", &request, false);
    let text = body.text.expect("schema nested under text");
    assert_eq!(text.format.kind, "json_schema");
    assert_eq!(text.format.name, "out");
    assert!(text.format.strict);
    assert_eq!(text.format.schema, object_schema());
    assert_eq!(body.temperature, None);
    assert_eq!(body.max_output_tokens, None);
}

#[test]
fn omits_text_config_when_unconstrained() {
    let request = ChatRequest::new(vec![])
        .with_temperature(0.0f32.to_bits())
        .with_max_output_tokens(256);
    let body = responses::build_request("m", &request, true);
    assert!(body.text.is_none());
    assert!(body.stream);
    assert_eq!(body.temperature.map(f32::from_bits), Some(0.0));
    assert_eq!(body.max_output_tokens, Some(256));
}

#[test]
fn responses_body_carries_the_turns_in_order() {
    let request = ChatRequest::from_prompt("sys", "usr").with_model("ignored");
    let body = responses::build_request("test-model", &request, false);
    assert_eq!(body.model, "test-model");
    assert_eq!(body.input.len(), 2);
    assert_eq!(body.input[0].role, "system");
    assert_eq!(body.input[0].content, "sys");
    assert_eq!(body.input[1].role, "user");
    assert_eq!(body.input[1].content, "usr");
    assert!(!body.stream);
    assert!(body.text.is_none());
}

#[test]
fn serializes_the_schema_as_response_format() {
    let request = ChatRequest::new(vec![Message::system("s")])
        .with_temperature(0.0f32.to_bits())
        .with_max_output_tokens(128)
        .with_schema(JsonSchema::new("out", object_schema()));
    let body = chat_completions::build_request("m", &request, false);
    let format = body.response_format.expect("schema as response_format");
    assert_eq!(format.kind, "json_schema");
    assert_eq!(format.json_schema.name, "out");
    assert!(format.json_schema.strict);
    assert_eq!(body.max_tokens, Some(128));
    assert_eq!(body.messages[0].role, "system");
    assert_eq!(body.messages[0].content, "s");
}

#[test]
fn omits_unset_fields() {
    let body = chat_completions::build_request("m", &ChatRequest::new(vec![]), false);
    assert!(body.temperature.is_none());
    assert!(body.max_tokens.is_none());
    assert!(body.response_format.is_none());
}

#[test]
fn a_lenient_schema_is_sent_lenient() {
    let request = ChatRequest::from_prompt("sys", "usr")
        .with_schema(JsonSchema::new("out", object_schema()).lenient());
    let chat_body = chat_completions::build_request("m", &request, true);
    assert!(!chat_body.response_format.expect("format").json_schema.strict);
    assert!(chat_body.stream);
    let responses_body = responses::build_request("m", &request, false);
    assert!(!responses_body.text.expect("text").format.strict);
}

#[test]
fn a_transcript_is_its_tokens_in_order() {
    let mut transcript = Transcript::new();
    transcript.record("Hello");
    transcript.record(", ");
    transcript.record("world");
    assert_eq!(transcript.into_text(), "Hello, world");
    assert_eq!(Transcript::new().into_text(), "");
}
