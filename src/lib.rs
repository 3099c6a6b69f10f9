//! A multi-turn, multimodal chat session over a remote chat-completion server or a local
//! decoding engine. The library holds the conversation, builds the user turns (images as
//! base64 data URIs), reads the streamed answer frame by frame, commits each completed turn
//! exactly once, and tracks how far the local key-value cache is filled.

pub mod encoding;
pub mod error;
pub mod local;
pub mod message;
pub mod remote;
pub mod session;
pub mod text;
