//! The per-payload decisions of a streaming read.

use openai_rs::connector::chat_completions::{StreamChoice, StreamChunk, StreamDelta};
use openai_rs::connector::responses::StreamEvent;
use openai_rs::{chat_stream_step, responses_stream_step, SseDecoder, StreamStep, Transcript};

fn chunk(content: Option<&str>) -> StreamChunk {
    StreamChunk {
        choices: vec![StreamChoice { delta: StreamDelta { content: content.map(String::from) } }],
    }
}

fn event(kind: &str, delta: Option<&str>) -> StreamEvent {
    StreamEvent { kind: kind.to_string(), delta: delta.map(String::from) }
}

#[test]
fn the_done_sentinel_stops_the_stream() {
    let mut transcript = Transcript::new();
    assert_eq!(chat_stream_step(&mut transcript, "[DONE]", None), StreamStep::Stop);
    assert_eq!(transcript.into_text(), "");
}

#[test]
fn a_chat_delta_is_recorded_and_sent() {
    let mut transcript = Transcript::new();
    let step = chat_stream_step(&mut transcript, "{...}", Some(chunk(Some("hi"))));
    assert_eq!(step, StreamStep::Send("hi".to_string()));
    assert_eq!(transcript.into_text(), "hi");
}

#[test]
fn an_unparsed_or_empty_chat_payload_is_skipped() {
    let mut transcript = Transcript::new();
    assert_eq!(chat_stream_step(&mut transcript, "not json", None), StreamStep::Skip);
    assert_eq!(chat_stream_step(&mut transcript, "{}", Some(chunk(None))), StreamStep::Skip);
    let no_choices = StreamChunk { choices: vec![] };
    assert_eq!(chat_stream_step(&mut transcript, "{}", Some(no_choices)), StreamStep::Skip);
    assert_eq!(transcript.into_text(), "");
}

#[test]
fn only_text_delta_events_are_sent() {
    let mut transcript = Transcript::new();
    let created = event("response.created", None);
    assert_eq!(responses_stream_step(&mut transcript, Some(created)), StreamStep::Skip);
    assert_eq!(responses_stream_step(&mut transcript, None), StreamStep::Skip);
    let delta = event("response.output_text.delta", Some("ab"));
    assert_eq!(
        responses_stream_step(&mut transcript, Some(delta)),
        StreamStep::Send("ab".to_string())
    );
    let reasoning = event("response.reasoning.delta", Some("hidden"));
    assert_eq!(responses_stream_step(&mut transcript, Some(reasoning)), StreamStep::Skip);
    assert_eq!(transcript.into_text(), "ab");
}

#[test]
fn nothing_after_the_sentinel_is_read() {
    let mut decoder = SseDecoder::new();
    decoder.push(b"data: kept\n\ndata: [DONE]\n\ndata: dropped\n\n");
    let mut transcript = Transcript::new();
    let mut sent = Vec::new();
    for payload in decoder.drain() {
        let parsed = if payload == "[DONE]" { None } else { Some(chunk(Some(&payload))) };
        match chat_stream_step(&mut transcript, &payload, parsed) {
            StreamStep::Stop => break,
            StreamStep::Skip => {}
            StreamStep::Send(text) => sent.push(text),
        }
    }
    assert_eq!(sent, vec!["kept"]);
    assert_eq!(transcript.into_text(), "kept");
}
