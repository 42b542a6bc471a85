//! The broker: services with their queues, topics with their subscribers, and the
//! decisions a connection makes on behalf of its client.

pub mod client_thread;
pub mod laws;
pub mod message;
pub mod registry;
pub mod server;
pub mod service;
pub mod topic;
