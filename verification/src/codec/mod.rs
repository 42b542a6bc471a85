//! The messages that travel between clients and the server, and their framing in
//! the byte stream of a connection.

pub mod codec;
pub mod message;
