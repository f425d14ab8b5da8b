//! Tests of the endpoint data models: wire names and the credential wrapper.

use openai_client::chat::Model as ChatModel;
use openai_client::chat::MessageRole;
use openai_client::completion::Model as TextModel;
use openai_client::embeddings::Model as EmbeddingsModel;
use openai_client::ApiKey;

#[test]
fn api_key_keeps_its_text() {
    let key = ApiKey::new("sk-test".to_string());
    assert_eq!(key.as_str(), "sk-test");
}

#[test]
fn chat_models_have_their_wire_names() {
    assert_eq!(ChatModel::Gpt4O.wire_name(), "gpt-4o");
    assert_eq!(ChatModel::Gpt4Turbo.wire_name(), "gpt-4-turbo");
    assert_eq!(ChatModel::Gpt4.wire_name(), "gpt-4");
    assert_eq!(ChatModel::Gpt432k0613.wire_name(), "gpt-4-32k-0613");
    assert_eq!(ChatModel::Gpt35Turbo.wire_name(), "gpt-3.5-turbo");
    assert_eq!(ChatModel::Gpt35Turbo16k0613.wire_name(), "gpt-3.5-turbo-16k-0613");
}

#[test]
fn message_roles_have_lowercase_wire_names() {
    assert_eq!(MessageRole::User.wire_name(), "user");
    assert_eq!(MessageRole::System.wire_name(), "system");
    assert_eq!(MessageRole::Assistant.wire_name(), "assistant");
}

#[test]
fn text_completion_models_have_their_wire_names() {
    assert_eq!(TextModel::TextDavinci003.wire_name(), "text-davinci-003");
    assert_eq!(TextModel::TextAda001.wire_name(), "text-ada-001");
}

#[test]
fn embeddings_models_have_their_wire_names() {
    assert_eq!(EmbeddingsModel::TextEmbeddingAda002.wire_name(), "text-embedding-ada-002");
    assert_eq!(EmbeddingsModel::TextSearchAdaDoc001.wire_name(), "text-search-ada-doc-001");
}
