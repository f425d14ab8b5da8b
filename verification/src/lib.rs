//! Client-side data model and verified streaming decoder for a remote
//! text-generation service.
//!
//! The heart of the crate is [`chat_stream`]: it classifies raw server-sent
//! events, decodes each data payload into a typed partial completion result,
//! and drives the stream lifecycle state machine (open events are skipped,
//! the `[DONE]` sentinel ends the stream cleanly, a malformed payload or a
//! transport failure yields exactly one error and closes the connection).
//! All I/O lives outside this crate; callers feed events in as plain values.

pub mod chat;
pub mod chat_stream;
pub mod common;
pub mod completion;
pub mod embeddings;
mod json;

pub use common::ApiKey;
pub use common::Usage;
