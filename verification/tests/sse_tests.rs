//! Server-sent-events framing.

use openai_rs::SseDecoder;

#[test]
fn extracts_data_lines_and_ignores_the_rest() {
    let mut decoder = SseDecoder::new();
    decoder.push(b"event: message\ndata: {\"a\":1}\n\n: comment\ndata: {\"a\":2}\n");
    assert_eq!(decoder.drain(), vec!["{\"a\":1}", "{\"a\":2}"]);
}

#[test]
fn buffers_across_chunk_boundaries() {
    let mut decoder = SseDecoder::new();
    decoder.push(b"data: {\"par");
    assert!(decoder.drain().is_empty(), "incomplete line must not emit");
    decoder.push(b"tial\":true}\n");
    assert_eq!(decoder.drain(), vec!["{\"partial\":true}"]);
}

#[test]
fn accepts_both_newline_conventions_and_the_spaceless_prefix() {
    let mut decoder = SseDecoder::new();
    decoder.push(b"data: crlf\r\ndata:no-space\n");
    assert_eq!(decoder.drain(), vec!["crlf", "no-space"]);
}

#[test]
fn a_chunk_boundary_inside_a_character_does_not_corrupt_it() {
    let line = "data: café\n".as_bytes();
    let split = line.len() - 2;
    assert!(
        std::str::from_utf8(&line[..split]).is_err(),
        "this test is only meaningful if the first chunk is invalid UTF-8"
    );

    let mut decoder = SseDecoder::new();
    decoder.push(&line[..split]);
    assert!(decoder.drain().is_empty());
    decoder.push(&line[split..]);
    assert_eq!(decoder.drain(), vec!["café"]);
}

#[test]
fn a_character_split_one_byte_at_a_time_survives() {
    let line = "data: 🎉 done\n".as_bytes();
    let mut decoder = SseDecoder::new();
    for byte in line {
        decoder.push(&[*byte]);
    }
    assert_eq!(decoder.drain(), vec!["🎉 done"]);
}

#[test]
fn drain_is_idempotent_once_empty() {
    let mut decoder = SseDecoder::new();
    decoder.push(b"data: one\n");
    assert_eq!(decoder.drain(), vec!["one"]);
    assert!(decoder.drain().is_empty());
}

#[test]
fn chunking_does_not_change_the_payloads() {
    let stream = b"data: a\n\nid: 7\ndata:  b \r\nevent: x\ndata: c\ndata: partial".to_vec();
    let mut whole = SseDecoder::new();
    whole.push(&stream);
    let expected = whole.drain();
    assert_eq!(expected, vec!["a", "b", "c"]);
    for split in 0..=stream.len() {
        let mut decoder = SseDecoder::new();
        decoder.push(&stream[..split]);
        let mut got = decoder.drain();
        decoder.push(&stream[split..]);
        got.extend(decoder.drain());
        assert_eq!(got, expected, "split at {split}");
    }
}

#[test]
fn invalid_bytes_in_a_complete_line_become_replacement_characters() {
    let mut decoder = SseDecoder::new();
    decoder.push(b"data: a\xffb\n");
    assert_eq!(decoder.drain(), vec!["a\u{fffd}b"]);
}

#[test]
fn payloads_are_trimmed_and_blank_data_lines_are_kept() {
    let mut decoder = SseDecoder::new();
    decoder.push("data: \u{3000}x\t \ndata:\n data: no\ndat: no\n".as_bytes());
    assert_eq!(decoder.drain(), vec!["x", ""]);
}

#[test]
fn any_chunking_with_drains_anywhere_gives_the_same_payloads() {
    let stream = "data: é1\nevent: x\r\ndata:  ü2 \r\n: c\ndata: 3".as_bytes().to_vec();
    let mut whole = SseDecoder::new();
    whole.push(&stream);
    let expected = whole.drain();
    assert_eq!(expected, vec!["é1", "ü2"]);
    for first in 0..=stream.len() {
        for second in first..=stream.len() {
            let mut decoder = SseDecoder::new();
            decoder.push(&stream[..first]);
            let mut got = decoder.drain();
            got.extend(decoder.drain());
            decoder.push(&stream[first..second]);
            decoder.push(&[]);
            got.extend(decoder.drain());
            decoder.push(&stream[second..]);
            got.extend(decoder.drain());
            assert_eq!(got, expected, "splits at {first} and {second}");
            decoder.push(b"\n");
            assert_eq!(decoder.drain(), vec!["3"]);
        }
    }
}
