//! Phronesis: a filesystem-based agentic memory. This crate holds the verified core:
//! naming rules, JSONL framing, warning and metadata queries, the projection planner,
//! grep matching, the folder catalog of the embedding index, and what moves, renames and
//! habit shortcuts decide.
pub mod bootstrap;
pub mod clock;
pub mod config;
pub mod listing;
pub mod paths;
pub mod error;
pub mod evolution;
pub mod fs;
pub mod search;
pub mod server;
pub mod text;
pub mod types;
