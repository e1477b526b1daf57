//! Which protocol a chat request goes over, and what happens when one refuses.
//!
//! The Responses API is tried first; when it reports that the model belongs to
//! Chat Completions, or that the server has no Responses endpoint, the call is
//! retried there and the protocol that answered is cached. A server that
//! rejects the output schema gets one unconstrained retry on the same protocol.
//! The decisions live here as a state machine; the HTTP client performs each
//! `Send` and reports its outcome back.

use vstd::prelude::*;
use crate::connector::protocol::{is_error_of, ProtocolError};
use crate::domain::error::OpenAiError;
use crate::domain::request::ChatRequest;

verus! {

/// Which protocol to speak.
#[derive(Debug, Clone, Copy, PartialEq, Eq, Structural)]
pub enum ApiFlavor {
    /// `/responses`, the default.
    Responses,
    /// `/chat/completions`, for models and servers that only speak it.
    ChatCompletions,
}

/// The protocol to try after `f` is rejected.
pub open spec fn flavor_other(f: ApiFlavor) -> ApiFlavor {
    match f {
        ApiFlavor::Responses => ApiFlavor::ChatCompletions,
        ApiFlavor::ChatCompletions => ApiFlavor::Responses,
    }
}

/// The name of a protocol in diagnostics.
pub open spec fn flavor_name(f: ApiFlavor) -> Seq<char> {
    match f {
        ApiFlavor::Responses => "responses"@,
        ApiFlavor::ChatCompletions => "chat completions"@,
    }
}

impl ApiFlavor {
    /// The protocol to try after this one is rejected.
    pub fn other(self) -> (r: ApiFlavor)
        ensures
            r == flavor_other(self),
    {
        match self {
            ApiFlavor::Responses => ApiFlavor::ChatCompletions,
            ApiFlavor::ChatCompletions => ApiFlavor::Responses,
        }
    }

    /// The name of this protocol in diagnostics.
    pub fn name(self) -> (s: &'static str)
        ensures
            s@ == flavor_name(self),
    {
        match self {
            ApiFlavor::Responses => "responses",
            ApiFlavor::ChatCompletions => "chat completions",
        }
    }
}

/// Encoding of a cached protocol that is still undiscovered.
pub const FLAVOR_UNKNOWN: u8 = 0;

/// Encoding of a cached Responses protocol.
pub const FLAVOR_RESPONSES: u8 = 1;

/// Encoding of a cached Chat Completions protocol.
pub const FLAVOR_CHAT: u8 = 2;

/// The encoding of a protocol in the client's cache.
pub open spec fn flavor_code(f: ApiFlavor) -> u8 {
    match f {
        ApiFlavor::Responses => FLAVOR_RESPONSES,
        ApiFlavor::ChatCompletions => FLAVOR_CHAT,
    }
}

/// The protocol a cache value stands for; `None` while undiscovered.
pub open spec fn flavor_of_code(raw: u8) -> Option<ApiFlavor> {
    if raw == FLAVOR_RESPONSES {
        Some(ApiFlavor::Responses)
    } else if raw == FLAVOR_CHAT {
        Some(ApiFlavor::ChatCompletions)
    } else {
        None
    }
}

/// The encoding of a protocol in the client's cache.
pub fn encode(flavor: ApiFlavor) -> (raw: u8)
    ensures
        raw == flavor_code(flavor),
{
    match flavor {
        ApiFlavor::Responses => FLAVOR_RESPONSES,
        ApiFlavor::ChatCompletions => FLAVOR_CHAT,
    }
}

/// The protocol a cache value stands for; `None` while undiscovered.
pub fn decode(raw: u8) -> (f: Option<ApiFlavor>)
    ensures
        f == flavor_of_code(raw),
{
    if raw == FLAVOR_RESPONSES {
        Some(ApiFlavor::Responses)
    } else if raw == FLAVOR_CHAT {
        Some(ApiFlavor::ChatCompletions)
    } else {
        None
    }
}

/// Law: the cache gives back the protocol stored in it, and an empty cache
/// holds no protocol.
pub proof fn law_cache_round_trip(f: ApiFlavor)
    ensures
        flavor_of_code(flavor_code(f)) == Some(f),
        flavor_of_code(FLAVOR_UNKNOWN) is None,
{
}

/// The protocol to try first: whatever last worked, else Responses.
pub open spec fn preferred(resolved: Option<ApiFlavor>) -> ApiFlavor {
    match resolved {
        Some(f) => f,
        None => ApiFlavor::Responses,
    }
}

/// The protocol to try first: whatever last worked, else Responses.
pub fn preferred_flavor(resolved: Option<ApiFlavor>) -> (f: ApiFlavor)
    ensures
        f == preferred(resolved),
{
    match resolved {
        Some(f) => f,
        None => ApiFlavor::Responses,
    }
}

/// The model a request is sent for: its own override, else the client's default.
pub fn model_for<'a>(request: &'a ChatRequest, default_model: &'a str) -> (m: &'a str)
    ensures
        m@ == match request.model {
            Some(o) => o@,
            None => default_model@,
        },
{
    match &request.model {
        Some(m) => m.as_str(),
        None => default_model,
    }
}

/// What the client does next.
#[derive(Debug)]
pub enum DispatchStep {
    /// Send the request over `flavor`, with its schema (`constrained`) or
    /// without it.
    Send { flavor: ApiFlavor, constrained: bool },
    /// The call is over: its result, and the protocol to cache, if any.
    Done { result: Result<String, OpenAiError>, cache: Option<ApiFlavor> },
}

/// Where a call stands between two requests.
#[derive(Debug, Clone, Copy, PartialEq, Eq, Structural)]
pub struct Dispatch {
    /// The protocol tried first.
    pub first: ApiFlavor,
    /// The protocol of the request last sent.
    pub current: ApiFlavor,
    /// Whether the call already moved to the other protocol.
    pub switched: bool,
    /// Whether the request last sent carried the schema.
    pub constrained: bool,
    /// Whether the caller's request carries a schema at all.
    pub has_schema: bool,
}

/// A reachable state: the current protocol is the first one until the switch
/// and the other one after it, and only a request with a schema is sent
/// constrained.
pub open spec fn dispatch_wf(d: Dispatch) -> bool {
    &&& d.current == (if d.switched { flavor_other(d.first) } else { d.first })
    &&& d.constrained ==> d.has_schema
}

/// The step and state that follow the outcome of the request last sent:
/// text ends the call and caches the protocol that produced it; a rejected
/// schema is retried once without it, on the same protocol; a wrong-API signal
/// moves the call, once, to the other protocol with the request as given;
/// anything else ends the call with its error.
pub open spec fn dispatch_next(
    d: Dispatch,
    outcome: Result<String, ProtocolError>,
    d2: Dispatch,
    step: DispatchStep,
) -> bool {
    match outcome {
        Ok(text) => d2 == d && step == (DispatchStep::Done {
            result: Ok(text),
            cache: Some(d.current),
        }),
        Err(p) => if d.constrained && p is SchemaUnsupported {
            &&& d2 == Dispatch { constrained: false, ..d }
            &&& step == (DispatchStep::Send { flavor: d.current, constrained: false })
        } else if !d.switched && p is WrongApi {
            &&& d2 == Dispatch {
                current: flavor_other(d.first),
                switched: true,
                constrained: d.has_schema,
                ..d
            }
            &&& step == (DispatchStep::Send {
                flavor: flavor_other(d.first),
                constrained: d.has_schema,
            })
        } else {
            &&& d2 == d
            &&& step matches DispatchStep::Done { result: Err(e), cache: None }
            &&& is_error_of(p, e)
        },
    }
}

impl Dispatch {
    /// Begin a call: the first request goes over the cached protocol (else
    /// Responses), with the caller's schema if there is one.
    pub fn start(resolved: Option<ApiFlavor>, has_schema: bool) -> (r: (Dispatch, DispatchStep))
        ensures
            dispatch_wf(r.0),
            r.0 == (Dispatch {
                first: preferred(resolved),
                current: preferred(resolved),
                switched: false,
                constrained: has_schema,
                has_schema,
            }),
            r.1 == (DispatchStep::Send { flavor: preferred(resolved), constrained: has_schema }),
    {
        let first = preferred_flavor(resolved);
        (
            Dispatch { first, current: first, switched: false, constrained: has_schema, has_schema },
            DispatchStep::Send { flavor: first, constrained: has_schema },
        )
    }

    /// The step that follows the outcome of the request last sent.
    pub fn on_outcome(&mut self, outcome: Result<String, ProtocolError>) -> (step: DispatchStep)
        ensures
            dispatch_next(*old(self), outcome, *final(self), step),
    {
        match outcome {
            Ok(text) => DispatchStep::Done { result: Ok(text), cache: Some(self.current) },
            Err(p) => {
                if self.constrained && matches!(p, ProtocolError::SchemaUnsupported) {
                    self.constrained = false;
                    DispatchStep::Send { flavor: self.current, constrained: false }
                } else if !self.switched && matches!(p, ProtocolError::WrongApi(_)) {
                    let second = self.first.other();
                    self.current = second;
                    self.switched = true;
                    self.constrained = self.has_schema;
                    DispatchStep::Send { flavor: second, constrained: self.has_schema }
                } else {
                    DispatchStep::Done { result: Err(p.into_error()), cache: None }
                }
            },
        }
    }
}

/// How many more requests a call in state `d` may still send.
pub open spec fn sends_left(d: Dispatch) -> nat {
    (if d.constrained { 1nat } else { 0nat }) + (if d.switched {
        0nat
    } else {
        1nat + (if d.has_schema { 1nat } else { 0nat })
    })
}

/// Law: a call sends at most four requests. It starts with at most three more
/// allowed, and every further request lowers that count; reachable states stay
/// reachable.
pub proof fn law_requests_are_bounded(
    d: Dispatch,
    outcome: Result<String, ProtocolError>,
    d2: Dispatch,
    step: DispatchStep,
)
    requires
        dispatch_wf(d),
        dispatch_next(d, outcome, d2, step),
    ensures
        dispatch_wf(d2),
        sends_left(d) <= 3,
        step is Send ==> sends_left(d2) < sends_left(d),
{
}

/// Law: the protocol is switched at most once, and only on the wrong-API
/// signal; a schema rejection is retried on the same protocol; success caches
/// exactly the protocol that produced the text.
pub proof fn law_switch_and_cache(
    d: Dispatch,
    outcome: Result<String, ProtocolError>,
    d2: Dispatch,
    step: DispatchStep,
)
    requires
        dispatch_wf(d),
        dispatch_next(d, outcome, d2, step),
    ensures
        d.switched ==> d2.current == d.current,
        d2.current != d.current ==> outcome matches Err(ProtocolError::WrongApi(_)),
        step matches DispatchStep::Send { flavor, constrained } ==> flavor == d2.current
            && constrained == d2.constrained,
        outcome matches Err(ProtocolError::SchemaUnsupported) && d.constrained ==> step
            == (DispatchStep::Send { flavor: d.current, constrained: false }),
        outcome is Ok ==> (step matches DispatchStep::Done { cache: Some(f), .. } && f == d.current),
        step matches DispatchStep::Done { result: Err(_), cache } ==> cache is None,
{
}

} // verus!
