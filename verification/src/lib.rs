//! Configuration, result re-ranking and the Google engine of a metasearch server.

pub mod config;
pub mod data;
pub mod engine;
pub mod google;
pub mod laws;
pub mod number;
pub mod order;
pub mod relevance;
pub mod reputation;
pub mod rerank;
pub mod source_identity;
pub mod text;
pub mod unicode;
pub mod vocabulary;
pub mod web;
