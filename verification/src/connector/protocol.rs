//! The contract between the two wire protocols and the client that arbitrates
//! between them: each protocol reports failures it cannot resolve locally, and
//! the client decides whether to retry unconstrained, switch APIs, or give up.

use vstd::prelude::*;
use vstd::string::StringExecFns;
use crate::domain::error::OpenAiError;
use crate::json::{json_lookup_string, json_string_at};
use crate::text::text_eq;

verus! {

/// A protocol-level failure, classified by what the caller can do about it.
#[derive(Debug)]
pub enum ProtocolError {
    /// This model is not served by this API: the other one should be tried.
    /// Carries the originating error. Only ever reported before any token is
    /// emitted, which is what makes retrying a stream elsewhere safe.
    WrongApi(OpenAiError),
    /// The server rejected the structured-output constraint.
    SchemaUnsupported,
    /// Anything else: propagate it.
    Fatal(OpenAiError),
}

/// What is reported when a rejected schema could not be retried without.
pub open spec fn schema_rejected_message() -> Seq<char> {
    "the server rejected the response schema and no unconstrained retry was possible"@
}

/// Whether `e` is the error handed to the caller for the protocol failure `p`:
/// the carried error, or a configuration error for a rejected schema that no
/// retry applied to.
pub open spec fn is_error_of(p: ProtocolError, e: OpenAiError) -> bool {
    match p {
        ProtocolError::Fatal(inner) => e == inner,
        ProtocolError::WrongApi(inner) => e == inner,
        ProtocolError::SchemaUnsupported => e matches OpenAiError::Configuration(m) && m@
            == schema_rejected_message(),
    }
}

impl ProtocolError {
    /// Collapse into the error to hand the caller: the carried error, or a
    /// configuration error for a rejected schema no retry applied to.
    pub fn into_error(self) -> (e: OpenAiError)
        ensures
            is_error_of(self, e),
    {
        match self {
            ProtocolError::Fatal(error) => error,
            ProtocolError::WrongApi(error) => error,
            ProtocolError::SchemaUnsupported => OpenAiError::configuration(
                "the server rejected the response schema and no unconstrained retry was possible",
            ),
        }
    }

    /// A failure to propagate as is.
    pub fn fatal(error: OpenAiError) -> (p: ProtocolError)
        ensures
            p == ProtocolError::Fatal(error),
    {
        ProtocolError::Fatal(error)
    }
}

/// The error code both APIs return when a model is reachable only via the
/// other one.
pub const WRONG_API_CODE: &'static str = "unsupported_api_for_model";

/// Where that code sits in an error body: `{"error": {"code": ...}}`.
pub const ERROR_CODE_POINTER: &'static str = "/error/code";

/// Whether an error body carries the switch-APIs signal.
pub open spec fn wrong_api_signal(body: Seq<char>) -> bool {
    json_string_at(body, ERROR_CODE_POINTER@) == Some(WRONG_API_CODE@)
}

/// Whether an error body carries the switch-APIs signal: a JSON body whose
/// `error.code` is `unsupported_api_for_model`.
pub fn is_wrong_api(body: &str) -> (r: bool)
    ensures
        r == wrong_api_signal(body@),
{
    match json_lookup_string(body, ERROR_CODE_POINTER) {
        Some(code) => text_eq(code.as_str(), WRONG_API_CODE),
        None => false,
    }
}

/// Statuses that mean the server does not implement the endpoint at all.
pub open spec fn endpoint_absent(status: u16) -> bool {
    status == 404 || status == 405 || status == 501
}

/// Whether a status means the server does not implement this endpoint.
pub fn is_endpoint_absent(status: u16) -> (r: bool)
    ensures
        r == endpoint_absent(status),
{
    status == 404 || status == 405 || status == 501
}

/// A 4xx status.
pub open spec fn client_error_status(status: u16) -> bool {
    400 <= status < 500
}

/// Law: the client errors are exactly the statuses from 400 through 499, and
/// of those only 404 and 405 mean the endpoint is absent (501 is a server
/// error).
pub proof fn law_client_errors_are_the_4xx(status: u16)
    ensures
        client_error_status(status) <==> 400 <= status && status < 500,
        endpoint_absent(status) && client_error_status(status) <==> status == 404 || status == 405,
        endpoint_absent(501) && !client_error_status(501),
{
}

/// Classify a non-success reply (`status`, `body`) to a request that did
/// (`constrained`) or did not carry a schema.
pub fn classify_rejection(status: u16, body: &str, constrained: bool) -> (p: ProtocolError)
    ensures
        match p {
            ProtocolError::WrongApi(OpenAiError::Api { status: s, body: b }) => s == status && b@
                == body@ && (wrong_api_signal(body@) || endpoint_absent(status)),
            ProtocolError::SchemaUnsupported => !(wrong_api_signal(body@) || endpoint_absent(
                status,
            )) && constrained && client_error_status(status),
            ProtocolError::Fatal(OpenAiError::Api { status: s, body: b }) => s == status && b@
                == body@ && !(wrong_api_signal(body@) || endpoint_absent(status)) && !(constrained
                && client_error_status(status)),
            _ => false,
        },
        constrained && 400 <= status && status < 500 && status != 404 && status != 405
            && !wrong_api_signal(body@) ==> p is SchemaUnsupported,
        wrong_api_signal(body@) || status == 404 || status == 405 || status == 501 ==> p is WrongApi,
        !constrained || status < 400 || status >= 500 ==> !(p is SchemaUnsupported),
{
    let error = OpenAiError::api(status, body);
    if is_wrong_api(body) || is_endpoint_absent(status) {
        ProtocolError::WrongApi(error)
    } else if constrained && 400 <= status && status < 500 {
        ProtocolError::SchemaUnsupported
    } else {
        ProtocolError::Fatal(error)
    }
}

/// Retries allowed for the intermittently gated Responses endpoint, whose
/// `403` is a rollout gate rather than an auth failure.
pub const GATED_403_RETRIES: usize = 4;

/// Whether the reply `status` to attempt number `attempt` (counting from 0)
/// calls for sending the same request again.
pub fn should_retry_gate(status: u16, attempt: usize) -> (r: bool)
    ensures
        r == (status == 403 && attempt < GATED_403_RETRIES),
{
    status == 403 && attempt < GATED_403_RETRIES
}

} // verus!
