//! Session database for AI command-line tools.
//!
//! The decisions of the session store, the agent and the sync client, each with
//! the contract that it is proved to meet.
pub mod agent;
pub mod archive;
pub mod calls;
pub mod client;
pub mod collector;
pub mod config;
pub mod coordination;
pub mod db;
pub mod effects;
pub mod error;
pub mod ffi;
pub mod host;
pub mod json;
pub mod laws;
pub mod migrations;
pub mod order;
pub mod paths;
pub mod protocol;
pub mod queries;
pub mod reader;
pub mod repair;
pub mod schema;
pub mod search;
pub mod session;
pub mod sql;
pub mod sync;
pub mod tables;
pub mod text;
pub mod time;
pub mod types;
pub mod version;
pub mod writer;
