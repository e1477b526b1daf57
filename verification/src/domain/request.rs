//! Everything needed to ask a model for one completion.

use vstd::prelude::*;
use vstd::string::StringExecFns;
use crate::domain::message::{copy_messages, Message, Role};

verus! {

/// A JSON Schema the model's output must conform to.
#[derive(Debug, Clone, PartialEq)]
pub struct JsonSchema {
    /// Short identifier for the schema, surfaced to the server.
    pub name: String,
    /// Reject any output that does not match the schema exactly.
    pub strict: bool,
    /// The JSON Schema object itself.
    pub schema: serde_json::Value,
}

impl JsonSchema {
    /// A strict schema: the server must reject non-conforming output.
    pub fn new(name: &str, schema: serde_json::Value) -> (s: JsonSchema)
        ensures
            s.name@ == name@,
            s.strict,
            s.schema == schema,
    {
        JsonSchema { name: String::from_str(name), strict: true, schema }
    }

    /// The same schema with strictness relaxed.
    pub fn lenient(self) -> (s: JsonSchema)
        ensures
            s == (JsonSchema { strict: false, ..self }),
    {
        JsonSchema { strict: false, ..self }
    }
}

/// Everything needed to ask a model for one completion.
///
/// `temperature` holds the IEEE-754 bit pattern of an `f32` sampling
/// temperature (`f32::to_bits`); it is passed through, never computed on.
#[derive(Debug, Clone, PartialEq)]
pub struct ChatRequest {
    /// The conversation, in order.
    pub messages: Vec<Message>,
    /// Model id overriding the client's default; `None` uses the default.
    pub model: Option<String>,
    /// Sampling temperature, as `f32` bits. Unset by default.
    pub temperature: Option<u32>,
    /// Cap on generated tokens.
    pub max_output_tokens: Option<u32>,
    /// Structured-output constraint.
    pub schema: Option<JsonSchema>,
}

impl Default for ChatRequest {
    /// An empty conversation with every option unset.
    fn default() -> (r: ChatRequest)
        ensures
            r.messages@.len() == 0,
            r.model is None,
            r.temperature is None,
            r.max_output_tokens is None,
            r.schema is None,
    {
        ChatRequest::new(Vec::new())
    }
}

/// A copy of an optional text.
pub fn copy_text(t: &Option<String>) -> (r: Option<String>)
    ensures
        r == *t,
{
    match t {
        Some(s) => Some(s.clone()),
        None => None,
    }
}

impl ChatRequest {
    /// A request for `messages` with every option unset.
    pub fn new(messages: Vec<Message>) -> (r: ChatRequest)
        ensures
            r.messages == messages,
            r.model is None,
            r.temperature is None,
            r.max_output_tokens is None,
            r.schema is None,
    {
        ChatRequest {
            messages,
            model: None,
            temperature: None,
            max_output_tokens: None,
            schema: None,
        }
    }

    /// The common shape: a system prompt framing a single user turn.
    pub fn from_prompt(system: &str, user: &str) -> (r: ChatRequest)
        ensures
            r.messages.len() == 2,
            r.messages[0].role == Role::System,
            r.messages[0].content@ == system@,
            r.messages[1].role == Role::User,
            r.messages[1].content@ == user@,
            r.model is None,
            r.temperature is None,
            r.max_output_tokens is None,
            r.schema is None,
    {
        let mut messages: Vec<Message> = Vec::new();
        messages.push(Message::system(system));
        messages.push(Message::user(user));
        ChatRequest::new(messages)
    }

    /// Override the model for this request.
    pub fn with_model(self, model: &str) -> (r: ChatRequest)
        ensures
            r.model matches Some(m) && m@ == model@,
            r.messages == self.messages,
            r.temperature == self.temperature,
            r.max_output_tokens == self.max_output_tokens,
            r.schema == self.schema,
    {
        ChatRequest { model: Some(String::from_str(model)), ..self }
    }

    /// Set the sampling temperature, given as `f32` bits.
    pub fn with_temperature(self, temperature: u32) -> (r: ChatRequest)
        ensures
            r == (ChatRequest { temperature: Some(temperature), ..self }),
    {
        ChatRequest { temperature: Some(temperature), ..self }
    }

    /// Cap the generated tokens.
    pub fn with_max_output_tokens(self, max_output_tokens: u32) -> (r: ChatRequest)
        ensures
            r == (ChatRequest { max_output_tokens: Some(max_output_tokens), ..self }),
    {
        ChatRequest { max_output_tokens: Some(max_output_tokens), ..self }
    }

    /// Constrain the output to `schema`.
    pub fn with_schema(self, schema: JsonSchema) -> (r: ChatRequest)
        ensures
            r == (ChatRequest { schema: Some(schema), ..self }),
    {
        ChatRequest { schema: Some(schema), ..self }
    }

    /// A copy with the structured-output constraint dropped, everything else
    /// kept: the retry made when a server rejects the schema.
    pub fn unconstrained(&self) -> (r: ChatRequest)
        ensures
            r.messages@ == self.messages@,
            r.model == self.model,
            r.temperature == self.temperature,
            r.max_output_tokens == self.max_output_tokens,
            r.schema is None,
    {
        ChatRequest {
            messages: copy_messages(&self.messages),
            model: copy_text(&self.model),
            temperature: self.temperature,
            max_output_tokens: self.max_output_tokens,
            schema: None,
        }
    }
}

} // verus!
