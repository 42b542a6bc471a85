//! The client side: its configuration, the polling state of its message stream,
//! and the translation between its tasks and the wire messages.

pub mod client;
pub mod config;
pub mod worker;
