//! Typed data for the embeddings endpoint: the model names and the request
//! shape. The response carries floating-point vectors, which this crate does
//! not model; submitting a request and decoding its response are transport
//! work and live outside the crate.

use vstd::prelude::*;

verus! {

/// An embeddings model, each with its fixed wire name.
#[derive(Debug, Copy, Clone, PartialEq, Eq, Structural)]
pub enum Model {
    TextEmbeddingAda002,
    TextSearchAdaDoc001,
}

impl Model {
    /// The name under which the model is sent on the wire.
    pub open spec fn spec_wire_name(&self) -> Seq<char> {
        match self {
            Model::TextEmbeddingAda002 => "text-embedding-ada-002"@,
            Model::TextSearchAdaDoc001 => "text-search-ada-doc-001"@,
        }
    }

    /// Returns the model's wire name.
    pub fn wire_name(&self) -> (s: &'static str)
        ensures
            s@ == self.spec_wire_name(),
    {
        match self {
            Model::TextEmbeddingAda002 => "text-embedding-ada-002",
            Model::TextSearchAdaDoc001 => "text-search-ada-doc-001",
        }
    }
}

/// An embeddings request: the model and the input text to embed.
#[derive(Debug, Clone)]
pub struct EmbeddingsRequest {
    pub model: Model,
    pub input: String,
}

} // verus!
