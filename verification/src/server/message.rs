//! Messages exchanged between connection sessions and the broker.

use tokio::sync::mpsc::Sender;
use vstd::prelude::*;

verus! {

/// One message handed to a client, with the id under which it awaits an ACK or NACK.
pub struct NewMessage {
    pub message_id: u32,
    pub message: Vec<u8>,
}

impl View for NewMessage {
    type V = (u32, Seq<u8>);

    open spec fn view(&self) -> (u32, Seq<u8>) {
        (self.message_id, self.message@)
    }
}

/// The batch of messages answering one pull request.
pub struct NewMessages {
    pub messages: Vec<NewMessage>,
}

impl View for NewMessages {
    type V = Seq<(u32, Seq<u8>)>;

    open spec fn view(&self) -> Seq<(u32, Seq<u8>)> {
        self.messages@.map_values(|m: NewMessage| m@)
    }
}

} // verus!

verus! {

/// A request that a connection session forwards to the broker on behalf of its
/// client.
pub enum ClientToMasterMessage {
    RegisterTopic { name: String },
    RegisterService { name: String },
    SubscribeServiceToTopic { service: String, topic: String },
    PushMessages { topic: String, messages: Vec<Vec<u8>> },
    PullMessages { service: String, client: Sender<NewMessages>, count: u32 },
    ACK { message_ids: Vec<u32>, service: String },
    NACK { message_ids: Vec<u32>, service: String },
    Disconnect,
    Shutdown,
}

/// An answer the broker owes a client: the batch to send on the client's channel.
pub struct PendingReply {
    pub client: Sender<NewMessages>,
    pub messages: NewMessages,
}

} // verus!
