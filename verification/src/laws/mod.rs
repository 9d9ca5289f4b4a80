//! What holds of the library for every input, said of what goes in and what comes out.
pub mod asking;
pub mod collecting;
pub mod connecting;
pub mod coordinating;
pub mod crossing;
pub mod keeping;
pub mod listing;
pub mod naming;
pub mod pushing;
pub mod reading;
pub mod searching;
pub mod serving;
pub mod stating;
pub mod syncing;
pub mod texts;
pub mod writing;
