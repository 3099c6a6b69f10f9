use vstd::prelude::*;

verus! {

/// What can go wrong in one call of a session.
#[derive(Debug, Clone, PartialEq, Eq)]
pub enum LlamaError {
    /// The connection or the transfer failed.
    Http(String),
    /// An image file could not be read.
    Io(String),
    /// A streamed frame held malformed JSON.
    Json(String),
    /// The server answered with a status outside the success class.
    Api { status: u16, body: String },
    /// A successful answer lacked the expected content field.
    MalformedResponse,
    /// The local model rejected the prompt.
    Tokenize(String),
    /// The local model failed to evaluate, or its context is full.
    Eval(String),
}

} // verus!
