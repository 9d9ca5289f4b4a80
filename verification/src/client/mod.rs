//! How a component reaches the agent.
pub mod connect;
pub mod download;
pub mod ffi;
