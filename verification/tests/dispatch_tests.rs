//! Protocol selection, fallback and caching.

use openai_rs::connector::dispatch::{decode, encode, model_for, preferred_flavor, FLAVOR_UNKNOWN};
use openai_rs::{ApiFlavor, ChatRequest, Dispatch, DispatchStep, OpenAiError, ProtocolError};

fn wrong_api() -> Result<String, ProtocolError> {
    Err(ProtocolError::WrongApi(OpenAiError::api(400, "wrong api")))
}

#[test]
fn flavors_alternate() {
    assert_eq!(ApiFlavor::Responses.other(), ApiFlavor::ChatCompletions);
    assert_eq!(ApiFlavor::ChatCompletions.other(), ApiFlavor::Responses);
}

#[test]
fn flavor_names() {
    assert_eq!(ApiFlavor::Responses.name(), "responses");
    assert_eq!(ApiFlavor::ChatCompletions.name(), "chat completions");
}

#[test]
fn the_cache_round_trips() {
    assert_eq!(decode(encode(ApiFlavor::Responses)), Some(ApiFlavor::Responses));
    assert_eq!(decode(encode(ApiFlavor::ChatCompletions)), Some(ApiFlavor::ChatCompletions));
    assert_eq!(decode(FLAVOR_UNKNOWN), None);
    assert_eq!(preferred_flavor(None), ApiFlavor::Responses);
    assert_eq!(preferred_flavor(Some(ApiFlavor::ChatCompletions)), ApiFlavor::ChatCompletions);
}

#[test]
fn request_model_overrides_the_client_default() {
    let plain = ChatRequest::from_prompt("s", "u");
    assert_eq!(model_for(&plain, "default-model"), "default-model");

    let overridden = ChatRequest::from_prompt("s", "u").with_model("other-model");
    assert_eq!(model_for(&overridden, "default-model"), "other-model");
}

#[test]
fn success_on_the_first_protocol_caches_it() {
    let (mut d, step) = Dispatch::start(None, false);
    assert!(matches!(step, DispatchStep::Send { flavor: ApiFlavor::Responses, constrained: false }));
    match d.on_outcome(Ok("hello".to_string())) {
        DispatchStep::Done { result: Ok(text), cache: Some(ApiFlavor::Responses) } => {
            assert_eq!(text, "hello")
        }
        other => panic!("unexpected {other:?}"),
    }
}

#[test]
fn a_wrong_api_signal_moves_to_the_other_protocol_once() {
    let (mut d, _) = Dispatch::start(None, false);
    assert!(matches!(
        d.on_outcome(wrong_api()),
        DispatchStep::Send { flavor: ApiFlavor::ChatCompletions, constrained: false }
    ));
    match d.on_outcome(Ok("from chat".to_string())) {
        DispatchStep::Done { result: Ok(text), cache: Some(ApiFlavor::ChatCompletions) } => {
            assert_eq!(text, "from chat")
        }
        other => panic!("unexpected {other:?}"),
    }
}

#[test]
fn both_protocols_refusing_reports_the_second_error() {
    let (mut d, _) = Dispatch::start(None, false);
    d.on_outcome(wrong_api());
    match d.on_outcome(Err(ProtocolError::Fatal(OpenAiError::api(401, "bad credentials")))) {
        DispatchStep::Done { result: Err(error), cache: None } => {
            assert_eq!(error.status(), Some(401));
            assert!(error.message().contains("bad credentials"));
        }
        other => panic!("unexpected {other:?}"),
    }
    let (mut d, _) = Dispatch::start(None, false);
    d.on_outcome(wrong_api());
    assert!(matches!(
        d.on_outcome(wrong_api()),
        DispatchStep::Done { result: Err(OpenAiError::Api { status: 400, .. }), cache: None }
    ));
}

#[test]
fn a_pinned_protocol_is_tried_first() {
    let (_, step) = Dispatch::start(Some(ApiFlavor::ChatCompletions), false);
    assert!(matches!(
        step,
        DispatchStep::Send { flavor: ApiFlavor::ChatCompletions, constrained: false }
    ));
}

#[test]
fn a_rejected_schema_is_retried_unconstrained_on_the_same_protocol() {
    let (mut d, step) = Dispatch::start(None, true);
    assert!(matches!(step, DispatchStep::Send { flavor: ApiFlavor::Responses, constrained: true }));
    assert!(matches!(
        d.on_outcome(Err(ProtocolError::SchemaUnsupported)),
        DispatchStep::Send { flavor: ApiFlavor::Responses, constrained: false }
    ));
    assert!(matches!(
        d.on_outcome(Err(ProtocolError::SchemaUnsupported)),
        DispatchStep::Done { result: Err(OpenAiError::Configuration(_)), cache: None }
    ));
}

#[test]
fn the_switched_protocol_starts_constrained_again() {
    let (mut d, _) = Dispatch::start(None, true);
    d.on_outcome(Err(ProtocolError::SchemaUnsupported));
    assert!(matches!(
        d.on_outcome(wrong_api()),
        DispatchStep::Send { flavor: ApiFlavor::ChatCompletions, constrained: true }
    ));
    assert!(matches!(
        d.on_outcome(Err(ProtocolError::SchemaUnsupported)),
        DispatchStep::Send { flavor: ApiFlavor::ChatCompletions, constrained: false }
    ));
    assert!(matches!(
        d.on_outcome(Err(ProtocolError::Fatal(OpenAiError::EmptyResponse))),
        DispatchStep::Done { result: Err(OpenAiError::EmptyResponse), cache: None }
    ));
}

#[test]
fn a_schema_rejection_without_a_schema_is_reported() {
    let (mut d, _) = Dispatch::start(None, false);
    assert!(matches!(
        d.on_outcome(Err(ProtocolError::SchemaUnsupported)),
        DispatchStep::Done { result: Err(OpenAiError::Configuration(_)), cache: None }
    ));
}
