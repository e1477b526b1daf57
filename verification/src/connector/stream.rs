//! The text a streamed reply assembles from its tokens.

use vstd::prelude::*;
use vstd::string::StringExecFns;
use crate::connector::chat_completions::{chunk_delta, is_done, StreamChunk, DONE_SENTINEL};
use crate::connector::responses::{event_delta, StreamEvent};

verus! {

/// The tokens, concatenated in order.
pub open spec fn concat_all(tokens: Seq<Seq<char>>) -> Seq<char>
    decreases tokens.len(),
{
    if tokens.len() == 0 {
        Seq::empty()
    } else {
        concat_all(tokens.drop_last()) + tokens.last()
    }
}

/// The tokens of a stream delivered so far, and the text they make.
pub struct Transcript {
    text: String,
    delivered: Ghost<Seq<Seq<char>>>,
}

impl Transcript {
    /// The tokens delivered so far, in order.
    pub closed spec fn tokens(&self) -> Seq<Seq<char>> {
        self.delivered@
    }

    /// The assembled text is always the delivered tokens, concatenated.
    #[verifier::type_invariant]
    spec fn assembled(&self) -> bool {
        self.text@ == concat_all(self.delivered@)
    }

    /// Nothing delivered yet.
    pub fn new() -> (t: Transcript)
        ensures
            t.tokens() == Seq::<Seq<char>>::empty(),
    {
        Transcript { text: String::new(), delivered: Ghost(Seq::empty()) }
    }

    /// Record a token as delivered.
    pub fn record(&mut self, token: &str)
        ensures
            final(self).tokens() == old(self).tokens().push(token@),
    {
        proof {
            use_type_invariant(&*self);
        }
        let ghost before = self.delivered@;
        let text = self.text.clone().concat(token);
        assert(before.push(token@).drop_last() == before);
        *self = Transcript { text, delivered: Ghost(before.push(token@)) };
    }

    /// The full text: every delivered token, concatenated in order.
    pub fn into_text(self) -> (s: String)
        ensures
            s@ == concat_all(self.tokens()),
    {
        proof {
            use_type_invariant(&self);
        }
        self.text
    }
}

/// What a stream reader does with one payload.
#[derive(Debug, Clone, PartialEq)]
pub enum StreamStep {
    /// The end-of-stream sentinel: read nothing more.
    Stop,
    /// A payload that carries no text, or that did not parse.
    Skip,
    /// A text delta, now recorded, to hand to the listener.
    Send(String),
}

/// How a transcript and a step follow from a delta: a present delta is
/// recorded and sent, an absent one is skipped and changes nothing.
pub open spec fn delivers(before: Seq<Seq<char>>, after: Seq<Seq<char>>, delta: Option<String>, step: StreamStep) -> bool {
    match delta {
        Some(t) => step == StreamStep::Send(t) && after == before.push(t@),
        None => step == StreamStep::Skip && after == before,
    }
}

/// Record a delta, if there is one, and say what to do with it.
fn deliver(transcript: &mut Transcript, delta: Option<String>) -> (step: StreamStep)
    ensures
        delivers(old(transcript).tokens(), final(transcript).tokens(), delta, step),
{
    match delta {
        Some(t) => {
            transcript.record(t.as_str());
            StreamStep::Send(t)
        },
        None => StreamStep::Skip,
    }
}

/// One payload of a Chat Completions stream. `chunk` is the payload parsed as
/// a stream chunk, `None` where it did not parse. The `[DONE]` sentinel stops
/// the stream; otherwise the chunk's delta, if any, is recorded and sent, and
/// a payload that did not parse or carries no text is skipped.
pub fn chat_stream_step(transcript: &mut Transcript, payload: &str, chunk: Option<StreamChunk>) -> (step: StreamStep)
    ensures
        payload@ == DONE_SENTINEL@ ==> step == StreamStep::Stop && final(transcript).tokens() == old(transcript).tokens(),
        payload@ != DONE_SENTINEL@ ==> delivers(
            old(transcript).tokens(),
            final(transcript).tokens(),
            match chunk {
                Some(c) => chunk_delta(c),
                None => None,
            },
            step,
        ),
{
    if is_done(payload) {
        return StreamStep::Stop;
    }
    match chunk {
        Some(c) => deliver(transcript, c.into_delta()),
        None => StreamStep::Skip,
    }
}

/// One payload of a Responses stream. `event` is the payload parsed as a
/// stream event, `None` where it did not parse. A text-delta event is recorded
/// and sent; every other event, and a payload that did not parse, is skipped.
pub fn responses_stream_step(transcript: &mut Transcript, event: Option<StreamEvent>) -> (step: StreamStep)
    ensures
        delivers(
            old(transcript).tokens(),
            final(transcript).tokens(),
            match event {
                Some(e) => event_delta(e),
                None => None,
            },
            step,
        ),
{
    match event {
        Some(e) => deliver(transcript, e.into_delta()),
        None => StreamStep::Skip,
    }
}

} // verus!
