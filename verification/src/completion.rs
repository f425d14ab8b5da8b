//! Typed data for the plain text completion endpoint: the model names and
//! the whole-body response shape. Submitting a request is transport work and
//! lives outside the crate.

use vstd::prelude::*;

use crate::common::Usage;

verus! {

/// A text-completion model, each with its fixed wire name.
#[derive(Debug, Copy, Clone, PartialEq, Eq, Structural)]
pub enum Model {
    TextDavinci003,
    TextDavinci002,
    TextCurie001,
    TextBabbage001,
    TextAda001,
}

impl Model {
    /// The name under which the model is sent on the wire.
    pub open spec fn spec_wire_name(&self) -> Seq<char> {
        match self {
            Model::TextDavinci003 => "text-davinci-003"@,
            Model::TextDavinci002 => "text-davinci-002"@,
            Model::TextCurie001 => "text-curie-001"@,
            Model::TextBabbage001 => "text-babbage-001"@,
            Model::TextAda001 => "text-ada-001"@,
        }
    }

    /// Returns the model's wire name.
    pub fn wire_name(&self) -> (s: &'static str)
        ensures
            s@ == self.spec_wire_name(),
    {
        match self {
            Model::TextDavinci003 => "text-davinci-003",
            Model::TextDavinci002 => "text-davinci-002",
            Model::TextCurie001 => "text-curie-001",
            Model::TextBabbage001 => "text-babbage-001",
            Model::TextAda001 => "text-ada-001",
        }
    }
}

/// One candidate completion of a whole-body response.
#[derive(Debug, Clone)]
pub struct CompletionChoice {
    pub index: i64,
    pub text: String,
    pub finish_reason: Option<String>,
}

/// A whole-body (non-streaming) text completion response.
#[derive(Debug, Clone)]
pub struct CompletionResponse {
    pub id: String,
    pub object: String,
    pub created: i64,
    pub model: String,
    pub choices: Vec<CompletionChoice>,
    pub usage: Usage,
}

} // verus!
