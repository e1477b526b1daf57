//! The Responses API (`/responses`), this crate's primary protocol: the
//! request it is sent, and the text read back from its replies.

use vstd::prelude::*;
use vstd::string::StringExecFns;
use crate::connector::chat_completions::{is_chat_request, ChatCompletionsRequest};
use crate::domain::message::role_name;
use crate::domain::request::ChatRequest;
use crate::text::{is_blank, is_blank_str, text_eq};

verus! {

/// Event type carrying incremental assistant text on the stream.
pub const TEXT_DELTA_EVENT: &'static str = "response.output_text.delta";

/// Output item type carrying user-facing text; reasoning and tool items do not.
pub const MESSAGE_ITEM: &'static str = "message";

/// Content part type holding assistant text.
pub const OUTPUT_TEXT_PART: &'static str = "output_text";

/// Structured-output format type.
pub const JSON_SCHEMA_FORMAT: &'static str = "json_schema";

/// One content part of an output item.
#[derive(Debug, Clone, PartialEq)]
pub struct ContentPart {
    /// Declared part type; empty when absent.
    pub kind: String,
    /// Its text; empty when absent.
    pub text: String,
}

/// One output item of a reply.
#[derive(Debug, Clone, PartialEq)]
pub struct OutputItem {
    /// Declared item type; empty when absent.
    pub kind: String,
    /// Its content parts.
    pub content: Vec<ContentPart>,
}

/// A non-streaming reply: a list of output items.
#[derive(Debug, Clone, PartialEq)]
pub struct ResponsesBody {
    pub output: Vec<OutputItem>,
}

/// The `output_text` parts of `parts`, concatenated.
pub open spec fn parts_text(parts: Seq<ContentPart>) -> Seq<char>
    decreases parts.len(),
{
    if parts.len() == 0 {
        Seq::empty()
    } else {
        parts_text(parts.drop_last()) + if parts.last().kind@ == OUTPUT_TEXT_PART@ {
            parts.last().text@
        } else {
            Seq::empty()
        }
    }
}

/// Whether an item carries the answer: a `message`, or an item with no
/// declared type (discarding it would discard the only answer).
pub open spec fn is_message_item(item: OutputItem) -> bool {
    item.kind@ == MESSAGE_ITEM@ || item.kind@.len() == 0
}

/// The text of the message items of `items`, concatenated.
pub open spec fn items_text(items: Seq<OutputItem>) -> Seq<char>
    decreases items.len(),
{
    if items.len() == 0 {
        Seq::empty()
    } else {
        items_text(items.drop_last()) + if is_message_item(items.last()) {
            parts_text(items.last().content@)
        } else {
            Seq::empty()
        }
    }
}

/// The answer in a reply, `None` when it is empty or white space only.
pub open spec fn body_text(body: ResponsesBody) -> Option<Seq<char>> {
    let t = items_text(body.output@);
    if is_blank(t) {
        None
    } else {
        Some(t)
    }
}

impl ResponsesBody {
    /// Concatenate the `output_text` parts of every message item, skipping
    /// reasoning and tool items; `None` when nothing but white space is left.
    pub fn into_text(self) -> (r: Option<String>)
        ensures
            match r {
                Some(s) => body_text(self) == Some(s@),
                None => body_text(self) is None,
            },
    {
        let mut text = String::new();
        let n = self.output.len();
        let mut i: usize = 0;
        while i < n
            invariant
                i <= n == self.output.len(),
                text@ == items_text(self.output@.take(i as int)),
            decreases n - i,
        {
            let item = &self.output[i];
            let ghost before = text@;
            if text_eq(item.kind.as_str(), MESSAGE_ITEM) || item.kind.as_str().is_empty() {
                let m = item.content.len();
                let mut j: usize = 0;
                while j < m
                    invariant
                        j <= m == item.content.len(),
                        text@ == before + parts_text(item.content@.take(j as int)),
                    decreases m - j,
                {
                    let part = &item.content[j];
                    if text_eq(part.kind.as_str(), OUTPUT_TEXT_PART) {
                        text.append(part.text.as_str());
                    }
                    assert(item.content@.take(j + 1).drop_last() == item.content@.take(j as int));
                    j = j + 1;
                }
                assert(item.content@.take(m as int) == item.content@);
            }
            assert(self.output@.take(i + 1).drop_last() == self.output@.take(i as int));
            i = i + 1;
        }
        assert(self.output@.take(n as int) == self.output@);
        if is_blank_str(text.as_str()) {
            None
        } else {
            Some(text)
        }
    }
}

/// One event of the stream; only text deltas matter.
#[derive(Debug, Clone, PartialEq)]
pub struct StreamEvent {
    /// Event type; empty when absent.
    pub kind: String,
    /// Incremental text, for text-delta events.
    pub delta: Option<String>,
}

/// The text an event contributes: the delta of a text-delta event, nothing
/// for created, reasoning, completed and the rest.
pub open spec fn event_delta(event: StreamEvent) -> Option<String> {
    if event.kind@ == TEXT_DELTA_EVENT@ {
        event.delta
    } else {
        None
    }
}

impl StreamEvent {
    /// The text this event contributes: the delta of a text-delta event,
    /// nothing for created, reasoning, completed and the rest.
    pub fn into_delta(self) -> (r: Option<String>)
        ensures
            r == event_delta(self),
    {
        if text_eq(self.kind.as_str(), TEXT_DELTA_EVENT) {
            self.delta
        } else {
            None
        }
    }
}

/// One input turn.
#[derive(Debug, Clone, PartialEq)]
pub struct InputItem {
    pub role: String,
    pub content: String,
}

/// The structured-output format, nested under `text`.
#[derive(Debug, Clone, PartialEq)]
pub struct TextFormat {
    /// Always `json_schema`.
    pub kind: String,
    pub name: String,
    pub strict: bool,
    pub schema: serde_json::Value,
}

/// The `text` field of a request.
#[derive(Debug, Clone, PartialEq)]
pub struct TextConfig {
    pub format: TextFormat,
}

/// The body POSTed to `/responses`. `temperature` holds `f32` bits.
#[derive(Debug, Clone, PartialEq)]
pub struct ResponsesRequest {
    pub model: String,
    pub input: Vec<InputItem>,
    pub stream: bool,
    pub temperature: Option<u32>,
    pub max_output_tokens: Option<u32>,
    pub text: Option<TextConfig>,
}

/// The request body for `request`, sent for `model`, streamed or not: one input
/// turn per message, the sampling knobs as given, and the schema under
/// `text.format`.
pub open spec fn is_responses_request(
    r: ResponsesRequest,
    model: Seq<char>,
    request: ChatRequest,
    stream: bool,
) -> bool {
    &&& r.model@ == model
    &&& r.input@.len() == request.messages@.len()
    &&& forall|i: int|
        0 <= i < r.input@.len() ==> {
            &&& (#[trigger] r.input@[i]).role@ == role_name(request.messages@[i].role)
            &&& r.input@[i].content@ == request.messages@[i].content@
        }
    &&& r.stream == stream
    &&& r.temperature == request.temperature
    &&& r.max_output_tokens == request.max_output_tokens
    &&& match (r.text, request.schema) {
        (None, None) => true,
        (Some(t), Some(s)) => {
            &&& t.format.kind@ == JSON_SCHEMA_FORMAT@
            &&& t.format.name@ == s.name@
            &&& t.format.strict == s.strict
            &&& t.format.schema == s.schema
        },
        _ => false,
    }
}

/// The request body for `request`, sent for `model`, streamed or not.
pub fn build_request(model: &str, request: &ChatRequest, stream: bool) -> (r: ResponsesRequest)
    ensures
        is_responses_request(r, model@, *request, stream),
        r.model@ == model@,
        r.stream == stream,
        r.temperature == request.temperature,
        r.max_output_tokens == request.max_output_tokens,
        r.input@.len() == request.messages@.len(),
        forall|i: int|
            0 <= i < request.messages@.len() ==> (#[trigger] r.input@[i]).role@ == role_name(
                request.messages@[i].role,
            ) && r.input@[i].content@ == request.messages@[i].content@,
        match (r.text, request.schema) {
            (None, None) => true,
            (Some(t), Some(s)) => t.format.kind@ == JSON_SCHEMA_FORMAT@ && t.format.name@ == s.name@
                && t.format.strict == s.strict && t.format.schema == s.schema,
            _ => false,
        },
{
    let mut input: Vec<InputItem> = Vec::new();
    let mut i: usize = 0;
    while i < request.messages.len()
        invariant
            i <= request.messages.len(),
            input@.len() == i,
            forall|k: int|
                0 <= k < i ==> {
                    &&& (#[trigger] input@[k]).role@ == role_name(request.messages@[k].role)
                    &&& input@[k].content@ == request.messages@[k].content@
                },
        decreases request.messages.len() - i,
    {
        let message = &request.messages[i];
        input.push(
            InputItem {
                role: String::from_str(message.role.as_str()),
                content: message.content.clone(),
            },
        );
        i = i + 1;
    }
    let text = match &request.schema {
        Some(schema) => Some(
            TextConfig {
                format: TextFormat {
                    kind: String::from_str(JSON_SCHEMA_FORMAT),
                    name: schema.name.clone(),
                    strict: schema.strict,
                    schema: schema.schema.clone(),
                },
            },
        ),
        None => None,
    };
    ResponsesRequest {
        model: String::from_str(model),
        input,
        stream,
        temperature: request.temperature,
        max_output_tokens: request.max_output_tokens,
        text,
    }
}

/// Law: a Responses body sends the request as given: one input turn per
/// message, in order, each with its own role name and content, the caller's
/// sampling temperature and output cap unchanged, the stream flag as asked, and
/// a `json_schema` text format carrying the schema's name, strictness and body
/// exactly when the request has a schema.
pub proof fn law_responses_body_carries_the_request(
    r: ResponsesRequest,
    model: Seq<char>,
    request: ChatRequest,
    stream: bool,
)
    requires
        is_responses_request(r, model, request, stream),
    ensures
        r.model@ == model,
        r.stream == stream,
        r.temperature == request.temperature,
        r.max_output_tokens == request.max_output_tokens,
        r.input@.len() == request.messages@.len(),
        forall|i: int|
            0 <= i < request.messages@.len() ==> (#[trigger] r.input@[i]).role@ == role_name(
                request.messages@[i].role,
            ) && r.input@[i].content@ == request.messages@[i].content@,
        match (r.text, request.schema) {
            (None, None) => true,
            (Some(t), Some(s)) => t.format.kind@ == JSON_SCHEMA_FORMAT@ && t.format.name@ == s.name@
                && t.format.strict == s.strict && t.format.schema == s.schema,
            _ => false,
        },
{
    assert forall|i: int| 0 <= i < request.messages@.len() implies (#[trigger] r.input@[i]).role@
        == role_name(request.messages@[i].role) && r.input@[i].content@
        == request.messages@[i].content@ by {}
}

/// Law: whichever protocol carries a request, the server is told the same
/// thing: the same (role, content) turns in the same order, the same model,
/// temperature and output cap, and the same schema on both or on neither.
pub proof fn law_both_protocols_send_the_same_request(
    c: ChatCompletionsRequest,
    r: ResponsesRequest,
    model: Seq<char>,
    request: ChatRequest,
    stream: bool,
)
    requires
        is_chat_request(c, model, request, stream),
        is_responses_request(r, model, request, stream),
    ensures
        c.model@ == r.model@,
        c.stream == r.stream,
        c.temperature == r.temperature,
        c.max_tokens == r.max_output_tokens,
        c.messages@.len() == r.input@.len(),
        forall|i: int|
            0 <= i < r.input@.len() ==> (#[trigger] c.messages@[i]).role@ == r.input@[i].role@
                && c.messages@[i].content@ == r.input@[i].content@,
        match (c.response_format, r.text) {
            (None, None) => true,
            (Some(f), Some(t)) => f.kind@ == t.format.kind@ && f.json_schema.name@ == t.format.name@
                && f.json_schema.strict == t.format.strict && f.json_schema.schema == t.format.schema,
            _ => false,
        },
{
    assert forall|i: int| 0 <= i < r.input@.len() implies (#[trigger] c.messages@[i]).role@
        == r.input@[i].role@ && c.messages@[i].content@ == r.input@[i].content@ by {
        assert(c.messages@[i].role@ == role_name(request.messages@[i].role));
        assert(r.input@[i].role@ == role_name(request.messages@[i].role));
    }
}

} // verus!
