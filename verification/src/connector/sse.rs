//! Server-sent-events framing shared by both streaming APIs.
//!
//! The payload rides on `data:` lines. Bytes arrive in chunks that split lines
//! anywhere, so the decoder buffers raw bytes until a newline is seen and only
//! then decodes the complete line: a chunk boundary inside a multi-byte
//! character therefore never corrupts it.

use vstd::prelude::*;
use crate::text::{chars_of, trim, trim_chars_from};

verus! {

/// What `String::from_utf8_lossy` makes of `bytes`.
pub uninterp spec fn utf8_lossy(bytes: Seq<u8>) -> Seq<char>;

/// `String::from_utf8_lossy`: decodes `bytes` as UTF-8, replacing each invalid
/// sequence with U+FFFD. Claimed: the result is `utf8_lossy(bytes)`, and valid
/// UTF-8 comes back decoded unchanged.
#[verifier::external_body]
fn decode_lossy(bytes: &[u8]) -> (s: String)
    ensures
        s@ == utf8_lossy(bytes@),
        vstd::utf8::valid_utf8(bytes@) ==> s@ == vstd::utf8::decode_utf8(bytes@),
{
    String::from_utf8_lossy(bytes).into_owned()
}

/// The line feed that ends every SSE line.
pub const LF: u8 = 10;

/// The carriage return of a `\r\n` line ending.
pub const CR: u8 = 13;

/// Index of the first line feed in `b`, or -1 when there is none.
pub open spec fn first_newline(b: Seq<u8>) -> int
    decreases b.len(),
{
    if b.len() == 0 {
        -1
    } else if b[0] == LF {
        0
    } else {
        let r = first_newline(b.drop_first());
        if r < 0 {
            -1
        } else {
            r + 1
        }
    }
}

/// A line with the `\r` of a `\r\n` ending removed.
pub open spec fn strip_cr(line: Seq<u8>) -> Seq<u8> {
    if line.len() > 0 && line.last() == CR {
        line.drop_last()
    } else {
        line
    }
}

/// `data:`, the field name of a payload line.
pub open spec fn data_field() -> Seq<char> {
    seq!['d', 'a', 't', 'a', ':']
}

/// `data: `, the field name followed by its customary space.
pub open spec fn data_field_spaced() -> Seq<char> {
    data_field().push(' ')
}

/// Whether `s` begins with `prefix`.
pub open spec fn starts_with(s: Seq<char>, prefix: Seq<char>) -> bool {
    prefix.len() <= s.len() && s.take(prefix.len() as int) == prefix
}

/// The text of a complete line: its characters where the bytes are valid
/// UTF-8, else the lossy decoding that replaces each invalid sequence.
pub open spec fn decoded_line(line: Seq<u8>) -> Seq<char> {
    if vstd::utf8::valid_utf8(line) {
        vstd::utf8::decode_utf8(line)
    } else {
        utf8_lossy(line)
    }
}

/// The payload a complete line carries: the trimmed text after `data: ` (or
/// `data:`), or `None` for any other line (`event:`, `id:`, comments, blanks).
pub open spec fn line_payload(line: Seq<u8>) -> Option<Seq<char>> {
    data_payload_of(decoded_line(line))
}

/// A line that is the UTF-8 encoding of a text decodes to that text.
pub proof fn lemma_encoded_line_decodes(text: Seq<char>)
    ensures
        decoded_line(vstd::utf8::encode_utf8(text)) == text,
{
    vstd::utf8::encode_utf8_valid_utf8(text);
    vstd::utf8::encode_utf8_decode_utf8(text);
}

/// Splitting `b` into complete lines: the payloads found, in order, and the
/// bytes after the last line feed, still waiting for theirs.
pub open spec fn sse_drain(b: Seq<u8>) -> (Seq<Seq<char>>, Seq<u8>)
    decreases b.len(),
{
    let n = first_newline(b);
    if n < 0 {
        (Seq::empty(), b)
    } else {
        proof {
            lemma_first_newline_range(b);
        }
        let rest = sse_drain(b.skip(n + 1));
        match line_payload(strip_cr(b.take(n))) {
            Some(p) => (seq![p] + rest.0, rest.1),
            None => rest,
        }
    }
}

/// The views of a sequence of texts.
pub open spec fn texts(v: Seq<String>) -> Seq<Seq<char>> {
    v.map_values(|s: String| s@)
}

pub proof fn lemma_first_newline_range(b: Seq<u8>)
    ensures
        -1 <= first_newline(b) < b.len(),
        first_newline(b) >= 0 ==> b[first_newline(b)] == LF,
        first_newline(b) < 0 ==> forall|k: int| 0 <= k < b.len() ==> b[k] != LF,
        forall|k: int| 0 <= k < first_newline(b) ==> b[k] != LF,
    decreases b.len(),
{
    if b.len() > 0 && b[0] != LF {
        lemma_first_newline_range(b.drop_first());
        assert forall|k: int| 0 < k < b.len() implies b[k] == b.drop_first()[k - 1] by {}
    }
}

proof fn lemma_first_newline_at(b: Seq<u8>, k: int)
    requires
        0 <= k < b.len(),
        b[k] == LF,
        forall|j: int| 0 <= j < k ==> b[j] != LF,
    ensures
        first_newline(b) == k,
{
    lemma_first_newline_range(b);
    if first_newline(b) < k {
        assert(b[first_newline(b)] == LF);
    }
}

/// Incremental `data:` payload extractor.
pub struct SseDecoder {
    buffer: Vec<u8>,
}

impl View for SseDecoder {
    type V = Seq<u8>;

    /// The bytes received and not yet part of a complete line.
    closed spec fn view(&self) -> Seq<u8> {
        self.buffer@
    }
}

impl SseDecoder {
    /// A decoder holding nothing.
    pub fn new() -> (d: SseDecoder)
        ensures
            d@ == Seq::<u8>::empty(),
    {
        SseDecoder { buffer: Vec::new() }
    }

    /// Append a received chunk verbatim.
    pub fn push(&mut self, bytes: &[u8])
        ensures
            final(self)@ == old(self)@ + bytes@,
    {
        let mut i: usize = 0;
        while i < bytes.len()
            invariant
                i <= bytes.len(),
                self.buffer@ == old(self)@ + bytes@.take(i as int),
            decreases bytes.len() - i,
        {
            self.buffer.push(bytes[i]);
            assert(bytes@.take(i + 1) == bytes@.take(i as int).push(bytes@[i as int]));
            i = i + 1;
        }
        assert(bytes@.take(bytes.len() as int) == bytes@);
    }

    /// Every complete `data:` payload buffered so far, in arrival order; the
    /// bytes of an unfinished last line stay buffered.
    pub fn drain(&mut self) -> (payloads: Vec<String>)
        ensures
            texts(payloads@) == sse_drain(old(self)@).0,
            final(self)@ == sse_drain(old(self)@).1,
    {
        let n = self.buffer.len();
        let ghost b = self.buffer@;
        let mut payloads: Vec<String> = Vec::new();
        let mut start: usize = 0;
        let mut i: usize = 0;
        assert(b.skip(0) == b);
        assert(texts(payloads@) + sse_drain(b).0 == sse_drain(b).0);
        while i < n
            invariant
                n == self.buffer.len(),
                b == self.buffer@,
                start <= i <= n,
                forall|k: int| start <= k < i ==> b[k] != LF,
                texts(payloads@) + sse_drain(b.skip(start as int)).0 == sse_drain(b).0,
                sse_drain(b.skip(start as int)).1 == sse_drain(b).1,
            decreases n - i,
        {
            if self.buffer[i] == LF {
                let end = if i > start && self.buffer[i - 1] == CR {
                    i - 1
                } else {
                    i
                };
                let line = copy_range(&self.buffer, start, end);
                let text = decode_lossy(line.as_slice());
                let payload = payload_of_text(&text);
                proof {
                    let tail = b.skip(start as int);
                    assert forall|j: int| 0 <= j < i - start implies tail[j] != LF by {
                        assert(tail[j] == b[j + start]);
                    }
                    lemma_first_newline_at(tail, i - start);
                    assert(tail.skip(i - start + 1) == b.skip(i + 1));
                    assert(strip_cr(tail.take(i - start)) == b.subrange(start as int, end as int));
                }
                let ghost prev = payloads@;
                match payload {
                    Some(p) => {
                        payloads.push(p);
                        assert(texts(payloads@) == texts(prev) + seq![p@]);
                    },
                    None => {},
                }
                start = i + 1;
            }
            i = i + 1;
        }
        proof {
            let tail = b.skip(start as int);
            assert forall|j: int| 0 <= j < tail.len() implies tail[j] != LF by {
                assert(tail[j] == b[j + start]);
            }
            lemma_first_newline_range(tail);
            assert(texts(payloads@) + Seq::<Seq<char>>::empty() == texts(payloads@));
        }
        self.buffer = copy_range(&self.buffer, start, n);
        payloads
    }
}

/// `v[lo..hi]` as a new vector.
fn copy_range(v: &Vec<u8>, lo: usize, hi: usize) -> (r: Vec<u8>)
    requires
        lo <= hi <= v.len(),
    ensures
        r@ == v@.subrange(lo as int, hi as int),
{
    let mut r: Vec<u8> = Vec::new();
    let mut i = lo;
    while i < hi
        invariant
            lo <= i <= hi <= v.len(),
            r@ == v@.subrange(lo as int, i as int),
        decreases hi - i,
    {
        r.push(v[i]);
        assert(v@.subrange(lo as int, i + 1) == v@.subrange(lo as int, i as int).push(v@[i as int]));
        i = i + 1;
    }
    r
}

/// The payload of a decoded line, as `line_payload` describes it.
fn payload_of_text(text: &String) -> (r: Option<String>)
    ensures
        match (r, data_payload_of(text@)) {
            (Some(s), Some(p)) => s@ == p,
            (None, None) => true,
            _ => false,
        },
{
    let chars = chars_of(text.as_str());
    let spaced = has_data_prefix(&chars, true);
    if spaced {
        Some(trim_chars_from(&chars, 6))
    } else if has_data_prefix(&chars, false) {
        Some(trim_chars_from(&chars, 5))
    } else {
        None
    }
}

/// The payload of a decoded line: the trimmed text after `data: ` (or
/// `data:`), or `None` when the line is no payload line.
pub open spec fn data_payload_of(text: Seq<char>) -> Option<Seq<char>> {
    if starts_with(text, data_field_spaced()) {
        Some(trim(text.skip(6)))
    } else if starts_with(text, data_field()) {
        Some(trim(text.skip(5)))
    } else {
        None
    }
}

/// Whether `chars` begins with `data: ` (`spaced`) or `data:`.
fn has_data_prefix(chars: &Vec<char>, spaced: bool) -> (r: bool)
    ensures
        r == starts_with(chars@, if spaced { data_field_spaced() } else { data_field() }),
{
    let ghost prefix = if spaced { data_field_spaced() } else { data_field() };
    let n: usize = if spaced { 6 } else { 5 };
    if chars.len() < n {
        return false;
    }
    let ok = chars[0] == 'd' && chars[1] == 'a' && chars[2] == 't' && chars[3] == 'a' && chars[4]
        == ':' && (!spaced || chars[5] == ' ');
    proof {
        if ok {
            assert(chars@.take(n as int) =~= prefix);
        } else {
            if chars@.take(n as int) == prefix {
                assert(chars@.take(n as int)[0] == prefix[0]);
                assert(chars@.take(n as int)[1] == prefix[1]);
                assert(chars@.take(n as int)[2] == prefix[2]);
                assert(chars@.take(n as int)[3] == prefix[3]);
                assert(chars@.take(n as int)[4] == prefix[4]);
                if spaced {
                    assert(chars@.take(n as int)[5] == prefix[5]);
                }
            }
        }
    }
    ok
}

} // verus!

verus! {

proof fn lemma_first_newline_append(b: Seq<u8>, c: Seq<u8>)
    requires
        first_newline(b) >= 0,
    ensures
        first_newline(b + c) == first_newline(b),
{
    lemma_first_newline_range(b);
    let n = first_newline(b);
    assert forall|j: int| 0 <= j < n implies (b + c)[j] != LF by {
        assert((b + c)[j] == b[j]);
    }
    assert((b + c)[n] == b[n]);
    lemma_first_newline_at(b + c, n);
}

/// Law: where a chunk boundary falls does not matter. Draining after part of
/// the bytes and then again after the rest yields the same payloads, in the same
/// order, and leaves the same bytes buffered, as draining once after all of them.
pub proof fn law_chunking_is_invisible(b: Seq<u8>, c: Seq<u8>)
    ensures
        sse_drain(b).0 + sse_drain(sse_drain(b).1 + c).0 == sse_drain(b + c).0,
        sse_drain(sse_drain(b).1 + c).1 == sse_drain(b + c).1,
    decreases b.len(),
{
    lemma_first_newline_range(b);
    let n = first_newline(b);
    if n < 0 {
        assert(sse_drain(b).0 + sse_drain(b + c).0 == sse_drain(b + c).0);
    } else {
        lemma_first_newline_append(b, c);
        assert((b + c).take(n) == b.take(n));
        assert((b + c).skip(n + 1) == b.skip(n + 1) + c);
        law_chunking_is_invisible(b.skip(n + 1), c);
        let rest = sse_drain(b.skip(n + 1));
        let later = sse_drain(rest.1 + c);
        match line_payload(strip_cr(b.take(n))) {
            Some(p) => {
                assert(seq![p] + rest.0 + later.0 == seq![p] + (rest.0 + later.0));
            },
            None => {},
        }
    }
}

/// Law: what stays buffered after a drain never holds a complete line, so an
/// immediate second drain yields nothing and changes nothing.
pub proof fn law_drain_leaves_no_complete_line(b: Seq<u8>)
    ensures
        forall|k: int| 0 <= k < sse_drain(b).1.len() ==> sse_drain(b).1[k] != LF,
        sse_drain(sse_drain(b).1) == (Seq::<Seq<char>>::empty(), sse_drain(b).1),
    decreases b.len(),
{
    lemma_first_newline_range(b);
    let n = first_newline(b);
    if n >= 0 {
        law_drain_leaves_no_complete_line(b.skip(n + 1));
    }
    lemma_first_newline_range(sse_drain(b).1);
}

/// Law: a payload is emitted only once its line is complete. Bytes with no line
/// feed yield nothing and are kept whole.
pub proof fn law_incomplete_line_is_held(b: Seq<u8>)
    requires
        forall|k: int| 0 <= k < b.len() ==> b[k] != LF,
    ensures
        sse_drain(b) == (Seq::<Seq<char>>::empty(), b),
{
    lemma_first_newline_range(b);
}

/// The bytes of a sequence of chunks, in order.
pub open spec fn concat_chunks(chunks: Seq<Seq<u8>>) -> Seq<u8>
    decreases chunks.len(),
{
    if chunks.len() == 0 {
        Seq::empty()
    } else {
        chunks[0] + concat_chunks(chunks.drop_first())
    }
}

/// Receiving `chunks` one after another into a decoder that holds `pending`,
/// draining after each: every payload drained, in order, and what the decoder
/// holds at the end.
pub open spec fn drain_per_chunk(pending: Seq<u8>, chunks: Seq<Seq<u8>>) -> (Seq<Seq<char>>, Seq<u8>)
    decreases chunks.len(),
{
    if chunks.len() == 0 {
        (Seq::empty(), pending)
    } else {
        let step = sse_drain(pending + chunks[0]);
        let rest = drain_per_chunk(step.1, chunks.drop_first());
        (step.0 + rest.0, rest.1)
    }
}

/// Law: the payloads depend on the bytes alone, never on where the chunk
/// boundaries fall. A decoder holding no complete line that receives the
/// chunks one by one, draining after each, drains the same payloads in the same
/// order, and ends holding the same bytes, as one that receives all the bytes at
/// once and drains once. Boundaries may fall inside a line or inside a
/// character. Pushes with no drain between them are one chunk, and a drain with
/// no push before it is an empty chunk, so this covers every way of
/// interleaving pushes and drains that ends with a drain.
pub proof fn law_any_chunking_is_invisible(pending: Seq<u8>, chunks: Seq<Seq<u8>>)
    requires
        forall|k: int| 0 <= k < pending.len() ==> pending[k] != LF,
    ensures
        drain_per_chunk(pending, chunks) == sse_drain(pending + concat_chunks(chunks)),
    decreases chunks.len(),
{
    if chunks.len() == 0 {
        law_incomplete_line_is_held(pending);
        assert(pending + concat_chunks(chunks) == pending);
    } else {
        let first = pending + chunks[0];
        let rest = concat_chunks(chunks.drop_first());
        law_drain_leaves_no_complete_line(first);
        law_any_chunking_is_invisible(sse_drain(first).1, chunks.drop_first());
        law_chunking_is_invisible(first, rest);
        assert(pending + concat_chunks(chunks) == first + rest);
    }
}

} // verus!
