//! Typed data for the chat completion endpoint: the model names, the
//! conversation messages that make up a request, and the whole-body response
//! shape. Submitting a request is transport work and lives outside the crate;
//! callers build these values and hand them to the transport layer.

use vstd::prelude::*;

use crate::common::Usage;

verus! {

/// A chat-capable model, each with its fixed wire name.
#[derive(Debug, Copy, Clone, PartialEq, Eq, Structural)]
pub enum Model {
    Gpt4O,
    Gpt4Turbo,
    Gpt4,
    Gpt40314,
    Gpt40613,
    Gpt432k,
    Gpt432k0314,
    Gpt432k0613,
    Gpt35Turbo,
    Gpt35Turbo0301,
    Gpt35Turbo16k,
    Gpt35Turbo0613,
    Gpt35Turbo16k0613,
}

impl Model {
    /// The name under which the model is sent on the wire.
    pub open spec fn spec_wire_name(&self) -> Seq<char> {
        match self {
            Model::Gpt4O => "gpt-4o"@,
            Model::Gpt4Turbo => "gpt-4-turbo"@,
            Model::Gpt4 => "gpt-4"@,
            Model::Gpt40314 => "gpt-4-0314"@,
            Model::Gpt40613 => "gpt-4-0613"@,
            Model::Gpt432k => "gpt-4-32k"@,
            Model::Gpt432k0314 => "gpt-4-32k-0314"@,
            Model::Gpt432k0613 => "gpt-4-32k-0613"@,
            Model::Gpt35Turbo => "gpt-3.5-turbo"@,
            Model::Gpt35Turbo0301 => "gpt-3.5-turbo-0301"@,
            Model::Gpt35Turbo16k => "gpt-3.5-turbo-16k"@,
            Model::Gpt35Turbo0613 => "gpt-3.5-turbo-0613"@,
            Model::Gpt35Turbo16k0613 => "gpt-3.5-turbo-16k-0613"@,
        }
    }

    /// Returns the model's wire name.
    pub fn wire_name(&self) -> (s: &'static str)
        ensures
            s@ == self.spec_wire_name(),
    {
        match self {
            Model::Gpt4O => "gpt-4o",
            Model::Gpt4Turbo => "gpt-4-turbo",
            Model::Gpt4 => "gpt-4",
            Model::Gpt40314 => "gpt-4-0314",
            Model::Gpt40613 => "gpt-4-0613",
            Model::Gpt432k => "gpt-4-32k",
            Model::Gpt432k0314 => "gpt-4-32k-0314",
            Model::Gpt432k0613 => "gpt-4-32k-0613",
            Model::Gpt35Turbo => "gpt-3.5-turbo",
            Model::Gpt35Turbo0301 => "gpt-3.5-turbo-0301",
            Model::Gpt35Turbo16k => "gpt-3.5-turbo-16k",
            Model::Gpt35Turbo0613 => "gpt-3.5-turbo-0613",
            Model::Gpt35Turbo16k0613 => "gpt-3.5-turbo-16k-0613",
        }
    }
}

/// Who a conversation message is from.
#[derive(Debug, Clone, Copy, PartialEq, Eq, Structural)]
pub enum MessageRole {
    User,
    System,
    Assistant,
}

impl MessageRole {
    /// The role's wire name: the lowercase form of the variant.
    pub open spec fn spec_wire_name(&self) -> Seq<char> {
        match self {
            MessageRole::User => "user"@,
            MessageRole::System => "system"@,
            MessageRole::Assistant => "assistant"@,
        }
    }

    /// Returns the role's wire name.
    pub fn wire_name(&self) -> (s: &'static str)
        ensures
            s@ == self.spec_wire_name(),
    {
        match self {
            MessageRole::User => "user",
            MessageRole::System => "system",
            MessageRole::Assistant => "assistant",
        }
    }
}

/// One conversation message of a request or a response.
#[derive(Debug, Clone)]
pub struct Message {
    pub role: MessageRole,
    pub content: String,
}

/// One candidate completion of a whole-body response.
#[derive(Debug, Clone)]
pub struct CompletionChoice {
    pub index: i64,
    pub message: Message,
    pub finish_reason: Option<String>,
}

/// A whole-body (non-streaming) chat completion response.
#[derive(Debug, Clone)]
pub struct CompletionResponse {
    pub id: String,
    pub object: String,
    pub created: i64,
    pub model: String,
    pub choices: Vec<CompletionChoice>,
    pub usage: Usage,
}

} // verus!
