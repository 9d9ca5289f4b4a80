//! The agent: the one process that writes to the store, and its clients.
pub mod broadcaster;
pub mod handler;
pub mod server;
pub mod watcher;
