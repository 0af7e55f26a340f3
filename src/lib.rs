//! Client library for generative-AI HTTP APIs (chat completion,
//! text-to-image, text-to-speech) across many vendors.
//!
//! The library builds each vendor's request as data (URL, headers, JSON
//! body), reads complete responses into one result type or a typed error,
//! and reassembles streamed chat responses from fragments of bytes. Sending
//! requests is left to the caller's HTTP client.
use vstd::prelude::*;

pub mod chat;
pub mod credentials;
pub mod encoding;
pub mod error;
pub mod json;
pub mod key_file;
pub mod message;
pub mod models;
pub mod openai;
pub mod provider;
pub mod request;
pub mod stream;
pub mod text;
pub mod text_to_image;
pub mod text_to_speech;

pub use credentials::Key;
pub use credentials::Keys;
pub use error::ApiError;
pub use json::Json;
pub use message::Content;
pub use message::Message;
pub use message::SubContent;
pub use provider::Api;
pub use provider::Provider;

verus! {

} // verus!
