//! Items shared by every endpoint: the bearer credential and token usage
//! accounting returned by non-streaming endpoints.

use vstd::prelude::*;

verus! {

/// An opaque bearer credential for the service.
///
/// The wrapped text is sent verbatim in an `Authorization: Bearer` header by
/// the transport layer; this crate never inspects it.
#[derive(Debug, Clone)]
pub struct ApiKey(String);

impl View for ApiKey {
    type V = Seq<char>;

    closed spec fn view(&self) -> Seq<char> {
        self.0@
    }
}

impl ApiKey {
    /// Wraps the given secret text; the key holds exactly that text.
    pub fn new(api_key: String) -> (k: Self)
        ensures
            k@ == api_key@,
    {
        ApiKey(api_key)
    }

    /// Returns the wrapped secret text unchanged.
    pub fn as_str(&self) -> (s: &str)
        ensures
            s@ == self@,
    {
        self.0.as_str()
    }
}

/// Token accounting attached to a whole-body (non-streaming) response.
#[derive(Debug, Clone)]
pub struct Usage {
    pub prompt_tokens: i64,
    pub completion_tokens: Option<i64>,
    pub total_tokens: i64,
}

} // verus!
