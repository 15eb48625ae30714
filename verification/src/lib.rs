//! Core logic of an RSS-to-forum news feed: prompts for the article
//! generator, feed parsing, the fetch and pipeline state machines,
//! Discord message formatting, session history and the log buffer.
pub mod error;
pub mod text;
pub mod fetcher;
pub mod config;
pub mod ai;
pub mod json;
pub mod discord;
pub mod db;
pub mod logs;
pub mod sessions;
pub mod cli;
pub mod pipeline;
pub mod scheduler;
