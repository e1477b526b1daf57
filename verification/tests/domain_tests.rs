//! Endpoints, errors, models, requests and embedding options.

use openai_rs::{
    ApiRoutes, ChatRequest, EmbeddingOptions, Endpoint, JsonSchema, Message, Model, ModelLimits,
    OpenAiError, Role, DEFAULT_BATCH_SIZE,
};

fn object_schema() -> serde_json::Value {
    let mut map = serde_json::Map::new();
    map.insert("type".to_string(), serde_json::Value::String("object".to_string()));
    serde_json::Value::Object(map)
}

#[test]
fn normalises_trailing_slashes_in_the_base_url() {
    assert_eq!(
        Endpoint::new("http://localhost:1234/").base_url(),
        "http://localhost:1234"
    );
    assert_eq!(
        Endpoint::new("http://localhost:1234").base_url(),
        "http://localhost:1234"
    );
}

#[test]
fn every_trailing_slash_is_removed() {
    assert_eq!(Endpoint::new("http://x///").base_url(), "http://x");
    assert_eq!(Endpoint::new("///").base_url(), "");
    assert_eq!(Endpoint::new("http://x/a/").base_url(), "http://x/a");
}

#[test]
fn empty_api_keys_are_treated_as_absent() {
    assert_eq!(Endpoint::new("http://x").with_api_key("").api_key(), None);
    assert_eq!(
        Endpoint::new("http://x").with_api_key("k").api_key(),
        Some("k")
    );
    assert_eq!(
        Endpoint::new("http://x")
            .with_optional_api_key(None::<&str>)
            .api_key(),
        None
    );
}

#[test]
fn an_optional_key_is_set_when_present() {
    let endpoint = Endpoint::new("http://x").with_optional_api_key(Some("secret"));
    assert_eq!(endpoint.api_key(), Some("secret"));
    let cleared = endpoint.with_api_key("");
    assert_eq!(cleared.api_key(), None);
}

#[test]
fn route_layouts_differ_only_in_the_version_prefix() {
    let versioned = ApiRoutes::versioned();
    assert_eq!(versioned.responses, "/v1/responses");
    assert_eq!(versioned.chat_completions, "/v1/chat/completions");

    let unversioned = ApiRoutes::unversioned();
    assert_eq!(unversioned.responses, "/responses");
    assert_eq!(unversioned.chat_completions, "/chat/completions");
}

#[test]
fn the_default_layout_is_versioned() {
    let routes = ApiRoutes::default();
    assert_eq!(routes, ApiRoutes::versioned());
    assert_eq!(routes.models, "/v1/models");
    assert_eq!(routes.embeddings, "/v1/embeddings");
    assert_eq!(ApiRoutes::unversioned().models, "/models");
    assert_eq!(ApiRoutes::unversioned().embeddings, "/embeddings");
    assert_eq!(Endpoint::new("http://x").routes(), &ApiRoutes::versioned());
    assert_eq!(
        Endpoint::new("http://x")
            .with_routes(ApiRoutes::unversioned())
            .routes(),
        &ApiRoutes::unversioned()
    );
}

#[test]
fn headers_accumulate_in_order() {
    let endpoint = Endpoint::new("http://x")
        .with_header("A", "1")
        .with_header("B", "2");
    assert_eq!(
        endpoint.headers(),
        [
            ("A".to_string(), "1".to_string()),
            ("B".to_string(), "2".to_string())
        ]
    );
}

#[test]
fn the_timeout_defaults_and_can_be_overridden() {
    let endpoint = Endpoint::new("http://x");
    assert_eq!(
        endpoint.timeout(),
        std::time::Duration::from_secs(openai_rs::DEFAULT_TIMEOUT_SECS)
    );
    assert_eq!(endpoint.timeout(), std::time::Duration::from_secs(300));
    let endpoint = endpoint.with_timeout(std::time::Duration::from_millis(1500));
    assert_eq!(endpoint.timeout(), std::time::Duration::from_millis(1500));
}

#[test]
fn classifies_client_errors() {
    assert!(OpenAiError::api(400, "bad request").is_client_error());
    assert!(OpenAiError::api(403, "forbidden").is_client_error());
    assert!(!OpenAiError::api(500, "boom").is_client_error());
    assert!(!OpenAiError::transport("refused").is_client_error());
}

#[test]
fn client_error_bounds_are_exact() {
    assert!(OpenAiError::api(499, "x").is_client_error());
    assert!(!OpenAiError::api(399, "x").is_client_error());
    assert!(!OpenAiError::EmptyResponse.is_client_error());
}

#[test]
fn exposes_status_only_for_api_errors() {
    assert_eq!(OpenAiError::api(404, "nope").status(), Some(404));
    assert_eq!(OpenAiError::decode("garbage").status(), None);
}

#[test]
fn error_messages_read_like_the_display() {
    assert_eq!(
        OpenAiError::api(401, "bad credentials").message(),
        "API returned 401: bad credentials"
    );
    assert_eq!(
        OpenAiError::configuration("oops").message(),
        "configuration error: oops"
    );
    assert_eq!(
        OpenAiError::transport("refused").message(),
        "transport error: refused"
    );
    assert_eq!(
        OpenAiError::decode("garbage").message(),
        "failed to decode response: garbage"
    );
    assert_eq!(
        OpenAiError::EmptyResponse.message(),
        "the model returned an empty response"
    );
    assert_eq!(OpenAiError::api(7, "").message(), "API returned 7: ");
    assert_eq!(
        OpenAiError::api(65535, "b").message(),
        "API returned 65535: b"
    );
}

#[test]
fn label_falls_back_to_the_id() {
    assert_eq!(Model::new("gpt-x").label(), "gpt-x");
    assert_eq!(
        Model::new("gpt-x").with_display_name("GPT X").label(),
        "GPT X"
    );
}

#[test]
fn empty_limits_are_dropped() {
    let model = Model::new("m").with_limits(ModelLimits::default());
    assert_eq!(model.limits, None);

    let model = Model::new("m").with_limits(ModelLimits {
        max_context_window_tokens: Some(128_000),
        max_output_tokens: None,
    });
    assert_eq!(
        model.limits.and_then(|l| l.max_context_window_tokens),
        Some(128_000)
    );
}

#[test]
fn model_builders_set_one_field_each() {
    let model = Model::new("m")
        .with_vendor("acme")
        .with_preview(true)
        .with_display_name("M");
    assert_eq!(model.id, "m");
    assert_eq!(model.vendor.as_deref(), Some("acme"));
    assert!(model.preview);
    assert_eq!(model.display_name.as_deref(), Some("M"));
    assert!(ModelLimits::default().is_empty());
    assert!(!ModelLimits {
        max_context_window_tokens: None,
        max_output_tokens: Some(1)
    }
    .is_empty());
}

#[test]
fn zero_batch_size_falls_back_to_the_default() {
    assert_eq!(
        EmbeddingOptions::default().with_batch_size(0).batch_size,
        DEFAULT_BATCH_SIZE
    );
    assert_eq!(EmbeddingOptions::default().with_batch_size(8).batch_size, 8);
}

#[test]
fn normalization_is_on_by_default() {
    assert!(EmbeddingOptions::default().normalize);
}

#[test]
fn embedding_options_builders() {
    let options = EmbeddingOptions::default()
        .with_normalize(false)
        .with_dimensions(256);
    assert!(!options.normalize);
    assert_eq!(options.dimensions, Some(256));
    assert_eq!(options.batch_size, DEFAULT_BATCH_SIZE);
    assert_eq!(EmbeddingOptions::default().dimensions, None);
}

#[test]
fn from_prompt_builds_system_then_user() {
    let request = ChatRequest::from_prompt("be terse", "hello");
    assert_eq!(request.messages.len(), 2);
    assert_eq!(request.messages[0].role, Role::System);
    assert_eq!(request.messages[0].content, "be terse");
    assert_eq!(request.messages[1].role, Role::User);
    assert_eq!(request.messages[1].content, "hello");
}

#[test]
fn defaults_leave_sampling_knobs_unset() {
    let request = ChatRequest::from_prompt("s", "u");
    assert_eq!(request.temperature, None);
    assert_eq!(request.max_output_tokens, None);
    assert_eq!(request.schema, None);
    assert_eq!(request.model, None);
}

#[test]
fn unconstrained_drops_only_the_schema() {
    let request = ChatRequest::from_prompt("s", "u")
        .with_temperature(0.0f32.to_bits())
        .with_model("m")
        .with_schema(JsonSchema::new("out", serde_json::Value::Object(serde_json::Map::new())));

    let relaxed = request.unconstrained();
    assert_eq!(relaxed.schema, None);
    assert_eq!(relaxed.temperature.map(f32::from_bits), Some(0.0));
    assert_eq!(relaxed.model.as_deref(), Some("m"));
    assert_eq!(relaxed.messages, request.messages);
}

#[test]
fn schema_defaults_to_strict() {
    let schema = JsonSchema::new("out", object_schema());
    assert!(schema.strict);
    assert!(!schema.lenient().strict);
}

#[test]
fn request_builders_set_one_field_each() {
    let request = ChatRequest::new(vec![Message::assistant("earlier")]).with_max_output_tokens(64);
    assert_eq!(request.max_output_tokens, Some(64));
    assert_eq!(request.messages[0].role, Role::Assistant);
    assert_eq!(Role::Assistant.as_str(), "assistant");
    assert_eq!(Role::System.as_str(), "system");
    assert_eq!(Role::User.as_str(), "user");
    let schema = JsonSchema::new("out", object_schema());
    assert_eq!(schema.name, "out");
    assert_eq!(schema.schema, object_schema());
}

#[test]
fn a_default_request_is_empty_with_every_option_unset() {
    let request = ChatRequest::default();
    assert!(request.messages.is_empty());
    assert_eq!(request.model, None);
    assert_eq!(request.temperature, None);
    assert_eq!(request.max_output_tokens, None);
    assert_eq!(request.schema, None);
}
