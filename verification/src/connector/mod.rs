//! Wire-level logic of the HTTP adapters: stream framing, reply decoding,
//! protocol arbitration and request shaping.

pub mod chat_completions;
pub mod catalog;
pub mod dispatch;
pub mod embeddings;
pub mod protocol;
pub mod responses;
pub mod sse;
pub mod stream;
pub mod transport;
