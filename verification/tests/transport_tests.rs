//! URLs, masking, shortening and the headers every request carries.

use openai_rs::connector::transport::MAX_BODY_SNIPPET_CHARS;
use openai_rs::{mask_secret, plan_headers, truncate, url, ApiRoutes, Endpoint, OpenAiError};

fn headers_for(endpoint: &Endpoint) -> Result<Vec<(String, String)>, OpenAiError> {
    plan_headers(endpoint.api_key(), endpoint.headers())
}

#[test]
fn masks_all_but_the_edges() {
    assert_eq!(mask_secret("sk-abcdefghijkl"), "sk-a*******ijkl");
    assert_eq!(mask_secret("short"), "*****");
    assert_eq!(mask_secret(""), "");
}

#[test]
fn masking_at_the_threshold() {
    assert_eq!(mask_secret("12345678"), "********");
    assert_eq!(mask_secret("123456789"), "1234*6789");
    assert_eq!(mask_secret("ééééééééé"), "éééé*éééé");
}

#[test]
fn builds_urls_from_the_base_and_route() {
    let endpoint = Endpoint::new("http://localhost:1234/");
    assert_eq!(
        url(endpoint.base_url(), "/v1/responses"),
        "http://localhost:1234/v1/responses"
    );
}

#[test]
fn honors_a_custom_route_layout() {
    let endpoint = Endpoint::new("https://api.example.com").with_routes(ApiRoutes::unversioned());
    assert_eq!(
        url(endpoint.base_url(), &endpoint.routes().responses),
        "https://api.example.com/responses"
    );
    assert_eq!(
        url(endpoint.base_url(), &endpoint.routes().chat_completions),
        "https://api.example.com/chat/completions"
    );
}

#[test]
fn truncates_long_bodies_on_char_boundaries() {
    let body = "é".repeat(MAX_BODY_SNIPPET_CHARS + 50);
    let truncated = truncate(&body);
    assert!(truncated.contains("bytes total"));
    assert!(truncated.chars().count() < body.chars().count());

    let short = "fine";
    assert_eq!(truncate(short), "fine");
}

#[test]
fn a_truncated_body_states_its_byte_length() {
    let body = "é".repeat(MAX_BODY_SNIPPET_CHARS + 1);
    let expected = format!("{}… (1002 bytes total)", "é".repeat(MAX_BODY_SNIPPET_CHARS));
    assert_eq!(truncate(&body), expected);
    let exact = "a".repeat(MAX_BODY_SNIPPET_CHARS);
    assert_eq!(truncate(&exact), exact);
}

#[test]
fn rejects_an_unusable_api_key_without_leaking_it() {
    let endpoint = Endpoint::new("http://x").with_api_key("bad\nkey-with-more-text");
    let error = headers_for(&endpoint).unwrap_err();
    let message = error.message();
    assert!(matches!(error, OpenAiError::Configuration(_)));
    assert!(!message.contains("bad\nkey-with-more-text"), "got: {message}");
    assert_eq!(
        message,
        "configuration error: API key bad\n**************text is not valid header content: failed to parse header value"
    );
}

#[test]
fn rejects_invalid_header_names() {
    let endpoint = Endpoint::new("http://x").with_header("Bad Header", "v");
    assert!(matches!(
        headers_for(&endpoint),
        Err(OpenAiError::Configuration(_))
    ));
    assert_eq!(
        headers_for(&endpoint).unwrap_err().message(),
        "configuration error: invalid header name 'Bad Header': invalid HTTP header name"
    );
}

#[test]
fn rejects_invalid_header_values_naming_the_header() {
    let endpoint = Endpoint::new("http://x").with_header("X-Token", "a\u{7f}b");
    assert_eq!(
        headers_for(&endpoint).unwrap_err().message(),
        "configuration error: invalid value for header 'x-token': failed to parse header value"
    );
}

#[test]
fn the_credential_goes_first_then_the_extra_headers() {
    let endpoint = Endpoint::new("http://x")
        .with_api_key("secret-key")
        .with_header("X-Custom", "value")
        .with_header("X-Api-Version", "2025-04-01");
    assert_eq!(
        headers_for(&endpoint).unwrap(),
        vec![
            ("authorization".to_string(), "Bearer secret-key".to_string()),
            ("X-Custom".to_string(), "value".to_string()),
            ("X-Api-Version".to_string(), "2025-04-01".to_string()),
        ]
    );
    assert!(headers_for(&Endpoint::new("http://x")).unwrap().is_empty());
}

#[test]
fn non_ascii_header_values_and_tabs_are_accepted() {
    let endpoint = Endpoint::new("http://x").with_header("X-Name", "caf\u{e9}\tok");
    assert_eq!(headers_for(&endpoint).unwrap().len(), 1);
    let empty_name = Endpoint::new("http://x").with_header("", "v");
    assert!(headers_for(&empty_name).is_err());
}
