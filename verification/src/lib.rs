//! A verified storage manager for chat conversations.
//!
//! Conversations are kept as individual JSON documents, one file per
//! conversation, beside a shared `index.json` listing the filenames that are
//! visible to listing. The logic that keeps the per-conversation files and
//! the index mutually consistent is verified here; the host process performs
//! the actual file reads and writes and hands their contents to this crate.

pub mod codec;
pub mod conversations;
pub mod laws;
pub mod order;

pub use conversations::{
    ClearPlan, Conversation, ConversationError, ConversationManager, SavePlan,
};
