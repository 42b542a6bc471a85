//! A no-frills message queue: the routing state of the broker, the per-connection
//! session logic, the client-side polling state and the wire framing, each with
//! its contract.

pub mod client;
pub mod codec;
pub mod external;
pub mod lemmas;
pub mod server;
pub mod port;
pub mod utils;

pub use client::client::{FrillsClient, UnAckedFrillsMessage};
pub use client::config::{Builder, FrillsClientConfig};
pub use server::server::FrillsServer;
