//! The Chat Completions API (`/chat/completions`), the fallback protocol: the
//! request it is sent, and the text read back from its replies.

use vstd::prelude::*;
use vstd::string::StringExecFns;
use crate::domain::message::role_name;
use crate::domain::request::ChatRequest;
use crate::text::{is_blank, is_blank_str, text_eq};

verus! {

/// Sentinel that ends a Chat Completions stream.
pub const DONE_SENTINEL: &'static str = "[DONE]";

/// Structured-output format type.
pub const JSON_SCHEMA_FORMAT: &'static str = "json_schema";

/// The assistant message of a choice.
#[derive(Debug, Clone, PartialEq)]
pub struct ResponseMessage {
    pub content: Option<String>,
    /// A separate reasoning channel some models put the whole answer in.
    pub reasoning_content: Option<String>,
}

/// A text that is present and not blank.
pub open spec fn usable(t: Option<String>) -> bool {
    t matches Some(s) && !is_blank(s@)
}

/// The answer in a message: its content unless blank, else its reasoning
/// channel unless blank, else nothing.
pub open spec fn message_text(m: ResponseMessage) -> Option<String> {
    if usable(m.content) {
        m.content
    } else if usable(m.reasoning_content) {
        m.reasoning_content
    } else {
        None
    }
}

/// `t` unless it is absent or blank.
fn non_blank(t: Option<String>) -> (r: Option<String>)
    ensures
        r == (if usable(t) { t } else { None }),
{
    match t {
        Some(s) => if is_blank_str(s.as_str()) {
            None
        } else {
            Some(s)
        },
        None => None,
    }
}

impl ResponseMessage {
    /// The content, falling back to the reasoning channel when the content is
    /// missing or blank; `None` when both are.
    pub fn into_text(self) -> (r: Option<String>)
        ensures
            r == message_text(self),
    {
        match non_blank(self.content) {
            Some(text) => Some(text),
            None => non_blank(self.reasoning_content),
        }
    }
}

/// One choice of a reply.
#[derive(Debug, Clone, PartialEq)]
pub struct Choice {
    pub message: ResponseMessage,
}

/// A non-streaming reply.
#[derive(Debug, Clone, PartialEq)]
pub struct ChatCompletionsBody {
    pub choices: Vec<Choice>,
}

impl ChatCompletionsBody {
    /// The answer in the first choice; `None` without choices or text.
    pub fn into_text(self) -> (r: Option<String>)
        ensures
            r == (if self.choices@.len() > 0 {
                message_text(self.choices@[0].message)
            } else {
                None
            }),
    {
        let mut choices = self.choices;
        if choices.len() > 0 {
            choices.remove(0).message.into_text()
        } else {
            None
        }
    }
}

/// The incremental part of a streamed choice.
#[derive(Debug, Clone, PartialEq)]
pub struct StreamDelta {
    pub content: Option<String>,
}

/// One streamed choice.
#[derive(Debug, Clone, PartialEq)]
pub struct StreamChoice {
    pub delta: StreamDelta,
}

/// One chunk of a streaming reply.
#[derive(Debug, Clone, PartialEq)]
pub struct StreamChunk {
    pub choices: Vec<StreamChoice>,
}

/// The text a chunk contributes: the first choice's delta content.
pub open spec fn chunk_delta(chunk: StreamChunk) -> Option<String> {
    if chunk.choices@.len() > 0 {
        chunk.choices@[0].delta.content
    } else {
        None
    }
}

impl StreamChunk {
    /// The text this chunk contributes: the first choice's delta content.
    pub fn into_delta(self) -> (r: Option<String>)
        ensures
            r == chunk_delta(self),
    {
        let mut choices = self.choices;
        if choices.len() > 0 {
            choices.remove(0).delta.content
        } else {
            None
        }
    }
}

/// Whether a stream payload is the end-of-stream sentinel.
pub fn is_done(payload: &str) -> (r: bool)
    ensures
        r == (payload@ == DONE_SENTINEL@),
{
    text_eq(payload, DONE_SENTINEL)
}

/// One conversation turn on the wire.
#[derive(Debug, Clone, PartialEq)]
pub struct WireMessage {
    pub role: String,
    pub content: String,
}

/// The schema of a `response_format`.
#[derive(Debug, Clone, PartialEq)]
pub struct JsonSchemaSpec {
    pub name: String,
    pub strict: bool,
    pub schema: serde_json::Value,
}

/// `response_format`: asks the server to constrain output to the schema.
#[derive(Debug, Clone, PartialEq)]
pub struct ResponseFormat {
    /// Always `json_schema`.
    pub kind: String,
    pub json_schema: JsonSchemaSpec,
}

/// The body POSTed to `/chat/completions`. `temperature` holds `f32` bits.
#[derive(Debug, Clone, PartialEq)]
pub struct ChatCompletionsRequest {
    pub model: String,
    pub messages: Vec<WireMessage>,
    pub stream: bool,
    pub temperature: Option<u32>,
    /// The output cap, which this API names `max_tokens`.
    pub max_tokens: Option<u32>,
    pub response_format: Option<ResponseFormat>,
}

/// The request body for `request`, sent for `model`, streamed or not: the
/// messages as given, the output cap as `max_tokens`, and the schema as a
/// top-level `response_format`.
pub open spec fn is_chat_request(
    r: ChatCompletionsRequest,
    model: Seq<char>,
    request: ChatRequest,
    stream: bool,
) -> bool {
    &&& r.model@ == model
    &&& r.messages@.len() == request.messages@.len()
    &&& forall|i: int|
        0 <= i < r.messages@.len() ==> {
            &&& (#[trigger] r.messages@[i]).role@ == role_name(request.messages@[i].role)
            &&& r.messages@[i].content@ == request.messages@[i].content@
        }
    &&& r.stream == stream
    &&& r.temperature == request.temperature
    &&& r.max_tokens == request.max_output_tokens
    &&& match (r.response_format, request.schema) {
        (None, None) => true,
        (Some(f), Some(s)) => {
            &&& f.kind@ == JSON_SCHEMA_FORMAT@
            &&& f.json_schema.name@ == s.name@
            &&& f.json_schema.strict == s.strict
            &&& f.json_schema.schema == s.schema
        },
        _ => false,
    }
}

/// The request body for `request`, sent for `model`, streamed or not.
pub fn build_request(model: &str, request: &ChatRequest, stream: bool) -> (r:
    ChatCompletionsRequest)
    ensures
        is_chat_request(r, model@, *request, stream),
        r.model@ == model@,
        r.stream == stream,
        r.temperature == request.temperature,
        r.max_tokens == request.max_output_tokens,
        r.messages@.len() == request.messages@.len(),
        forall|i: int|
            0 <= i < request.messages@.len() ==> (#[trigger] r.messages@[i]).role@ == role_name(
                request.messages@[i].role,
            ) && r.messages@[i].content@ == request.messages@[i].content@,
        match (r.response_format, request.schema) {
            (None, None) => true,
            (Some(f), Some(s)) => f.kind@ == JSON_SCHEMA_FORMAT@ && f.json_schema.name@ == s.name@
                && f.json_schema.strict == s.strict && f.json_schema.schema == s.schema,
            _ => false,
        },
{
    let mut messages: Vec<WireMessage> = Vec::new();
    let mut i: usize = 0;
    while i < request.messages.len()
        invariant
            i <= request.messages.len(),
            messages@.len() == i,
            forall|k: int|
                0 <= k < i ==> {
                    &&& (#[trigger] messages@[k]).role@ == role_name(request.messages@[k].role)
                    &&& messages@[k].content@ == request.messages@[k].content@
                },
        decreases request.messages.len() - i,
    {
        let message = &request.messages[i];
        messages.push(
            WireMessage {
                role: String::from_str(message.role.as_str()),
                content: message.content.clone(),
            },
        );
        i = i + 1;
    }
    let response_format = match &request.schema {
        Some(schema) => Some(
            ResponseFormat {
                kind: String::from_str(JSON_SCHEMA_FORMAT),
                json_schema: JsonSchemaSpec {
                    name: schema.name.clone(),
                    strict: schema.strict,
                    schema: schema.schema.clone(),
                },
            },
        ),
        None => None,
    };
    ChatCompletionsRequest {
        model: String::from_str(model),
        messages,
        stream,
        temperature: request.temperature,
        max_tokens: request.max_output_tokens,
        response_format,
    }
}

/// Law: a Chat Completions body sends the request as given: every turn with
/// its own role name and content, in order, the caller's sampling temperature
/// and output cap unchanged, the stream flag as asked, and a `json_schema`
/// response format carrying the schema's name, strictness and body exactly
/// when the request has a schema.
pub proof fn law_chat_body_carries_the_request(
    r: ChatCompletionsRequest,
    model: Seq<char>,
    request: ChatRequest,
    stream: bool,
)
    requires
        is_chat_request(r, model, request, stream),
    ensures
        r.model@ == model,
        r.stream == stream,
        r.temperature == request.temperature,
        r.max_tokens == request.max_output_tokens,
        r.messages@.len() == request.messages@.len(),
        forall|i: int|
            0 <= i < request.messages@.len() ==> (#[trigger] r.messages@[i]).role@ == role_name(
                request.messages@[i].role,
            ) && r.messages@[i].content@ == request.messages@[i].content@,
        match (r.response_format, request.schema) {
            (None, None) => true,
            (Some(f), Some(s)) => f.kind@ == JSON_SCHEMA_FORMAT@ && f.json_schema.name@ == s.name@
                && f.json_schema.strict == s.strict && f.json_schema.schema == s.schema,
            _ => false,
        },
{
    assert forall|i: int| 0 <= i < request.messages@.len() implies (#[trigger] r.messages@[i]).role@
        == role_name(request.messages@[i].role) && r.messages@[i].content@
        == request.messages@[i].content@ by {}
}

} // verus!
