//! Verified core of the espx language server: comment syntax tables, the
//! comment lexer, the recency cache, configuration assembly and the query
//! builders used against the document database.

pub mod text;
pub mod commands;
pub mod comment_str;
pub mod lexer;
pub mod lru;
pub mod agents;
pub mod config;
pub mod action_config;
pub mod query;
pub mod chunks;
pub mod doc_chunks;
pub mod blocks;
pub mod doc_store;
pub mod actions;
pub mod burns;
pub mod errors;
pub mod ui;
pub mod changes;
pub mod runes;
pub mod memories;
pub mod global_lru;
pub mod executor;
pub mod action_run;
pub mod burn_cache;
pub mod code_actions;
