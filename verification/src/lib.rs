//! Client logic for OpenAI-compatible servers.
//!
//! Speaks the Responses API by default and falls back to Chat Completions for
//! models or servers that only support it, caching whichever works so the
//! probe is paid once. This crate holds the decisions and the wire formats:
//! the server-sent-events framing, the text read back from replies, the
//! request bodies, the arbitration between the two protocols, the matching of
//! embedding vectors to their inputs, and the pure value types.

pub mod connector;
pub mod domain;
pub mod json;
pub mod text;

pub use connector::catalog::{models_from_entries, ModelEntry};
pub use connector::dispatch::{ApiFlavor, Dispatch, DispatchStep};
pub use connector::embeddings::{arrange_by_index, batch_bounds, first_vector, order_by_index};
pub use connector::protocol::{
    classify_rejection, is_endpoint_absent, is_wrong_api, should_retry_gate, ProtocolError,
};
pub use connector::sse::SseDecoder;
pub use connector::stream::{chat_stream_step, responses_stream_step, StreamStep, Transcript};
pub use connector::transport::{mask_secret, plan_headers, truncate, url};
pub use domain::embedding::{EmbeddingOptions, DEFAULT_BATCH_SIZE};
pub use domain::endpoint::{ApiRoutes, Endpoint, DEFAULT_TIMEOUT_SECS};
pub use domain::error::OpenAiError;
pub use domain::message::{Message, Role};
pub use domain::model::{Model, ModelLimits};
pub use domain::request::{ChatRequest, JsonSchema};
