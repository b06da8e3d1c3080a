//! Laws: what the operations of the library mean in terms of their inputs and
//! results.

pub mod calls;
pub mod config;
pub mod data;
pub mod google;
pub mod google_calls;
pub mod relevance;
pub mod reputation;
pub mod rerank;
pub mod source_identity;
pub mod text;
pub mod vocabulary;
