//! A chat client core: decoding of streamed completions, conversation
//! history with a token estimate, and the automatic continuation of
//! truncated replies.
pub mod text;
pub mod sse;
pub mod message;
pub mod conversation;
pub mod adapter;
pub mod continuation;
pub mod session;

pub use adapter::{StreamAdapter, StreamStep};
pub use continuation::{ReplyTurn, StreamOutcome, TurnDecision, MAX_AUTO_CONTINUE};
pub use conversation::Conversation;
pub use message::{
    estimate_tokens, get_model_max_input_tokens, get_model_max_tokens, map_model, ApiResponse,
    Choice, Content, ImageContent, ImageUrl, Message, ResponseFormat, TextContent,
};
pub use sse::{SseDecoder, StreamEvent};
