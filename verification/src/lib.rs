//! A chat-session engine: a linear transcript of user and assistant turns,
//! the submit / populate / stream / settle protocol that drives it, and the
//! retrieval fan-in that attaches codebase excerpts to a turn.
//!
//! Every operation is a total function on the session state. Asynchronous
//! work (searching, loading files, reading a completion stream) happens
//! outside; its results are handed to the session as plain values.

pub mod error;
pub mod ids;
pub mod context;
pub mod message;
pub mod transcript;
pub mod session;
pub mod preservation;
pub mod chat;
pub mod retrieval;
pub mod laws;

pub use chat::{AssistantChat, CompletionRequest, ContextQuery, Submission, CODEBASE_SEARCH_LIMIT};
pub use context::{AssistantContext, CodebaseContext, CodebaseExcerpt};
pub use error::ChatError;
pub use ids::{ContextId, MessageId};
pub use message::{AssistantMessage, ChatMessage, CompletionMessage, CompletionRole, UserMessage};
pub use retrieval::{excerpt_text, ExcerptCollector, Resolution, SearchHit};
pub use session::{CompletionStage, PendingCompletion, Submit, SubmitMode};
