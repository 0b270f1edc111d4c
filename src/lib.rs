//! Retrieval-augmented chat core: file routing and chunking, the document
//! store, context assembly for prompts, and conversation-turn bookkeeping.

pub mod config;
pub mod chunker;
pub mod store;
pub mod context;
pub mod conversation;
