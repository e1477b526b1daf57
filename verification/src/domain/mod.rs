//! Pure value types shared by every layer: no I/O, no async.

pub mod embedding;
pub mod endpoint;
pub mod error;
pub mod message;
pub mod model;
pub mod request;
