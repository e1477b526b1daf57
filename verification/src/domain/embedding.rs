//! How a batch of inputs is turned into vectors.

use vstd::prelude::*;

verus! {

/// Number of inputs sent per `/embeddings` request when embedding a batch.
pub const DEFAULT_BATCH_SIZE: usize = 32;

/// How a batch of inputs should be turned into vectors.
#[derive(Debug, Clone, PartialEq, Eq, Structural)]
pub struct EmbeddingOptions {
    /// Inputs per HTTP request.
    pub batch_size: usize,
    /// L2-normalise each vector so cosine similarity equals the dot product.
    pub normalize: bool,
    /// Requested output dimensionality; `None` leaves the model's native size.
    pub dimensions: Option<usize>,
}

impl Default for EmbeddingOptions {
    /// Default batch size, normalisation on, native dimensionality.
    fn default() -> (o: Self)
        ensures
            o.batch_size == DEFAULT_BATCH_SIZE,
            o.normalize,
            o.dimensions is None,
    {
        EmbeddingOptions { batch_size: DEFAULT_BATCH_SIZE, normalize: true, dimensions: None }
    }
}

impl EmbeddingOptions {
    /// Override the batch size. Zero would make no progress, so it falls back
    /// to the default.
    pub fn with_batch_size(self, batch_size: usize) -> (o: Self)
        ensures
            o.batch_size == (if batch_size == 0 { DEFAULT_BATCH_SIZE } else { batch_size }),
            o.normalize == self.normalize,
            o.dimensions == self.dimensions,
    {
        EmbeddingOptions {
            batch_size: if batch_size == 0 {
                DEFAULT_BATCH_SIZE
            } else {
                batch_size
            },
            ..self
        }
    }

    /// Turn normalisation on or off.
    pub fn with_normalize(self, normalize: bool) -> (o: Self)
        ensures
            o == (EmbeddingOptions { normalize, ..self }),
    {
        EmbeddingOptions { normalize, ..self }
    }

    /// Request an output dimensionality.
    pub fn with_dimensions(self, dimensions: usize) -> (o: Self)
        ensures
            o == (EmbeddingOptions { dimensions: Some(dimensions), ..self }),
    {
        EmbeddingOptions { dimensions: Some(dimensions), ..self }
    }
}

} // verus!
