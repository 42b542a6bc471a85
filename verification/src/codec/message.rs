//! The wire messages.

use vstd::prelude::*;

verus! {

/// Any message on a connection.
pub enum FrillsMessage {
    ClientToServer(FrillsClientToServer),
    ServerToClient(FrillsServerToClient),
}

/// A request from a client to the server.
pub enum FrillsClientToServer {
    Disconnect,
    Shutdown,
    RegisterTopic { name: String },
    RegisterAsService { name: String },
    SubscribeToTopic { topic_name: String },
    PushMessages { topic: String, messages: Vec<Vec<u8>> },
    PullMessages { count: u32 },
    ACKMessage { message_id: u32 },
    ACKMessageSet { message_ids: Vec<u32> },
    NACKMessage { message_id: u32 },
    NACKMessageSet { message_ids: Vec<u32> },
}

/// A message from the server to a client.
pub enum FrillsServerToClient {
    Empty,
    PulledMessages { messages: Vec<(Vec<u8>, u32)> },
}

/// The payloads and ids of a batch of pulled messages.
pub open spec fn pulled_view(messages: Seq<(Vec<u8>, u32)>) -> Seq<(Seq<u8>, u32)> {
    messages.map_values(|p: (Vec<u8>, u32)| (p.0@, p.1))
}

} // verus!
