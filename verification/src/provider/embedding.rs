//! Embedding requests and the metadata of embedding models.
use vstd::prelude::*;

verus! {

/// Static metadata about an embedding model.
#[derive(Debug, Clone, PartialEq, Eq)]
pub struct EmbeddingModelInfo {
    pub id: String,
    pub dimensions: usize,
    pub max_tokens: usize,
}

impl EmbeddingModelInfo {
    pub fn new(id: &str, dimensions: usize, max_tokens: usize) -> (r: EmbeddingModelInfo)
        ensures
            r.id@ == id@,
            r.dimensions == dimensions,
            r.max_tokens == max_tokens,
    {
        EmbeddingModelInfo { id: id.to_owned(), dimensions, max_tokens }
    }
}

/// Input of an embedding request: one text, or a batch of texts.
#[derive(Debug, Clone, Copy, PartialEq, Eq)]
pub enum EmbeddingInput<'a> {
    Single(&'a str),
    Batch(&'a [&'a str]),
}

/// Request payload sent to the embeddings endpoint.
#[derive(Debug, Clone, Copy)]
pub struct EmbeddingRequest<'a> {
    pub model: &'a str,
    pub input: EmbeddingInput<'a>,
}

impl<'a> EmbeddingRequest<'a> {
    /// A request embedding one text.
    pub fn single(model: &'a str, text: &'a str) -> (r: EmbeddingRequest<'a>)
        ensures
            r.model == model,
            r.input == EmbeddingInput::Single(text),
    {
        EmbeddingRequest { model, input: EmbeddingInput::Single(text) }
    }

    /// A request embedding a batch of texts, one vector per text in order.
    pub fn batch(model: &'a str, texts: &'a [&'a str]) -> (r: EmbeddingRequest<'a>)
        ensures
            r.model == model,
            r.input == EmbeddingInput::Batch(texts),
    {
        EmbeddingRequest { model, input: EmbeddingInput::Batch(texts) }
    }
}

/// Token usage reported by the embeddings endpoint.
#[derive(Debug, Clone, Copy, PartialEq, Eq, Structural)]
pub struct EmbeddingUsage {
    pub prompt_tokens: u32,
    pub total_tokens: u32,
}

} // verus!
