//! The OpenAI-compatible chat types under their historical module name.
pub use crate::chat::ChatCompletion;
pub use crate::chat::ChatCompletionChunk;
pub use crate::chat::ChatCompletionError;
pub use crate::chat::Choice;
pub use crate::chat::ChunkChoice;
pub use crate::chat::Delta;
pub use crate::chat::Usage;
