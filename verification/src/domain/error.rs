//! Every failure this crate can surface.

use vstd::prelude::*;
use vstd::string::StringExecFns;
use crate::text::{decimal, push_decimal};

verus! {

/// Every failure this crate can surface, free of HTTP-client types.
#[derive(Debug, Clone, PartialEq)]
pub enum OpenAiError {
    /// The endpoint could not be built: an unusable API key or header.
    Configuration(String),
    /// The request never produced an HTTP response.
    Transport(String),
    /// The server answered with a non-success status; `body` is its raw text.
    Api { status: u16, body: String },
    /// The response arrived but did not match the expected shape.
    Decode(String),
    /// The call succeeded but the model produced no usable text.
    EmptyResponse,
}

/// The status of an `Api` error, `None` for every other kind.
pub open spec fn error_status(e: OpenAiError) -> Option<u16> {
    match e {
        OpenAiError::Api { status, .. } => Some(status),
        _ => None,
    }
}

/// The human-readable description of an error.
pub open spec fn error_message(e: OpenAiError) -> Seq<char> {
    match e {
        OpenAiError::Configuration(m) => "configuration error: "@ + m@,
        OpenAiError::Transport(m) => "transport error: "@ + m@,
        OpenAiError::Api { status, body } => "API returned "@ + decimal(status as nat) + ": "@ + body@,
        OpenAiError::Decode(m) => "failed to decode response: "@ + m@,
        OpenAiError::EmptyResponse => "the model returned an empty response"@,
    }
}

impl OpenAiError {
    /// An endpoint that could not be built.
    pub fn configuration(msg: &str) -> (e: OpenAiError)
        ensures
            e matches OpenAiError::Configuration(m) && m@ == msg@,
    {
        OpenAiError::Configuration(String::from_str(msg))
    }

    /// A request that produced no HTTP response.
    pub fn transport(msg: &str) -> (e: OpenAiError)
        ensures
            e matches OpenAiError::Transport(m) && m@ == msg@,
    {
        OpenAiError::Transport(String::from_str(msg))
    }

    /// A response of the wrong shape.
    pub fn decode(msg: &str) -> (e: OpenAiError)
        ensures
            e matches OpenAiError::Decode(m) && m@ == msg@,
    {
        OpenAiError::Decode(String::from_str(msg))
    }

    /// A non-success status with its body.
    pub fn api(status: u16, body: &str) -> (e: OpenAiError)
        ensures
            e matches OpenAiError::Api { status: s, body: b } && s == status && b@ == body@,
    {
        OpenAiError::Api { status, body: String::from_str(body) }
    }

    /// The HTTP status, when this error came from a server response.
    pub fn status(&self) -> (r: Option<u16>)
        ensures
            r == error_status(*self),
    {
        match self {
            OpenAiError::Api { status, .. } => Some(*status),
            _ => None,
        }
    }

    /// Whether this is a 4xx server rejection: the request was wrong, rather
    /// than the server broken.
    pub fn is_client_error(&self) -> (r: bool)
        ensures
            r == (error_status(*self) matches Some(s) && 400 <= s < 500),
    {
        match self.status() {
            Some(s) => 400 <= s && s < 500,
            None => false,
        }
    }

    /// The human-readable description, as the error's display shows it.
    pub fn message(&self) -> (s: String)
        ensures
            s@ == error_message(*self),
    {
        match self {
            OpenAiError::Configuration(m) => String::from_str("configuration error: ").concat(
                m.as_str(),
            ),
            OpenAiError::Transport(m) => String::from_str("transport error: ").concat(m.as_str()),
            OpenAiError::Api { status, body } => {
                let mut s = String::from_str("API returned ");
                push_decimal(&mut s, *status as u64);
                s.concat(": ").concat(body.as_str())
            },
            OpenAiError::Decode(m) => String::from_str("failed to decode response: ").concat(
                m.as_str(),
            ),
            OpenAiError::EmptyResponse => String::from_str("the model returned an empty response"),
        }
    }
}

} // verus!
