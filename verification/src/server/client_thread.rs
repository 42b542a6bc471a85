//! What a server-side connection does with each message from its client.

use tokio::sync::mpsc::Sender;
use vstd::prelude::*;

use crate::codec::message::{FrillsClientToServer, FrillsMessage, FrillsServerToClient, pulled_view};
use crate::server::message::{ClientToMasterMessage, NewMessages};

verus! {

/// What a connection knows of its client: the service it registered as, if any,
/// and whether the client has disconnected.
pub struct ClientThreadView {
    pub service_name: Option<Seq<char>>,
    pub shutdown: bool,
}

/// The state of one server-side connection.
pub struct ClientThread {
    service_name: Option<String>,
    shutdown: bool,
}

/// What the connection does after a message from its client.
pub enum ClientThreadAction {
    /// Forward this request to the broker.
    ToMaster(ClientToMasterMessage),
    /// Nothing to forward.
    Nothing,
    /// A message that a client does not send; it is reported and dropped.
    Unexpected,
}

impl View for ClientThread {
    type V = ClientThreadView;

    closed spec fn view(&self) -> ClientThreadView {
        ClientThreadView {
            service_name: match self.service_name {
                Some(name) => Some(name@),
                None => None,
            },
            shutdown: self.shutdown,
        }
    }
}

/// The request forwarded for the registered service `service`, where the client
/// acknowledges (`is_nack` false) or refuses the messages `ids`.
pub open spec fn settles(action: ClientThreadAction, service: Seq<char>, ids: Seq<u32>, is_nack: bool) -> bool {
    if is_nack {
        action matches ClientThreadAction::ToMaster(ClientToMasterMessage::NACK { message_ids, service: s })
            && message_ids@ == ids && s@ == service
    } else {
        action matches ClientThreadAction::ToMaster(ClientToMasterMessage::ACK { message_ids, service: s })
            && message_ids@ == ids && s@ == service
    }
}

/// How the connection in state `old` answers `message` from its client, where
/// `reply_to` is the channel on which pulled messages reach this connection.
pub open spec fn thread_handled(
    old: ClientThreadView,
    new: ClientThreadView,
    message: FrillsMessage,
    reply_to: Sender<NewMessages>,
    action: ClientThreadAction,
) -> bool {
    match message {
        FrillsMessage::ClientToServer(request) => match request {
            FrillsClientToServer::Disconnect => action is Nothing && new == ClientThreadView { shutdown: true, ..old },
            FrillsClientToServer::Shutdown => new == old
                && action == ClientThreadAction::ToMaster(ClientToMasterMessage::Shutdown),
            FrillsClientToServer::RegisterTopic { name } => new == old
                && action == ClientThreadAction::ToMaster(ClientToMasterMessage::RegisterTopic { name }),
            FrillsClientToServer::RegisterAsService { name } => match old.service_name {
                None => new == ClientThreadView { service_name: Some(name@), ..old }
                    && action == ClientThreadAction::ToMaster(ClientToMasterMessage::RegisterService { name }),
                Some(_) => new == old && action is Nothing,
            },
            FrillsClientToServer::SubscribeToTopic { topic_name } => new == old && match old.service_name {
                Some(service) => action matches ClientThreadAction::ToMaster(
                    ClientToMasterMessage::SubscribeServiceToTopic { service: s, topic },
                ) && s@ == service && topic == topic_name,
                None => action is Nothing,
            },
            FrillsClientToServer::PushMessages { topic, messages } => new == old
                && action == ClientThreadAction::ToMaster(ClientToMasterMessage::PushMessages { topic, messages }),
            FrillsClientToServer::PullMessages { count } => new == old && match old.service_name {
                Some(service) => action matches ClientThreadAction::ToMaster(
                    ClientToMasterMessage::PullMessages { service: s, client, count: c },
                ) && s@ == service && client == reply_to && c == count,
                None => action is Nothing,
            },
            FrillsClientToServer::ACKMessage { message_id } => new == old && match old.service_name {
                Some(service) => settles(action, service, seq![message_id], false),
                None => action is Nothing,
            },
            FrillsClientToServer::ACKMessageSet { message_ids } => new == old && match old.service_name {
                Some(service) => settles(action, service, message_ids@, false),
                None => action is Nothing,
            },
            FrillsClientToServer::NACKMessage { message_id } => new == old && match old.service_name {
                Some(service) => settles(action, service, seq![message_id], true),
                None => action is Nothing,
            },
            FrillsClientToServer::NACKMessageSet { message_ids } => new == old && match old.service_name {
                Some(service) => settles(action, service, message_ids@, true),
                None => action is Nothing,
            },
        },
        FrillsMessage::ServerToClient(_) => new == old && action is Unexpected,
    }
}

/// A request that needs no service (topic registration, push, shutdown) is
/// forwarded to the broker exactly as it came, whether or not the client has
/// registered as a service, and the connection's state is unchanged.
pub proof fn law_forwarded_as_is(
    old: ClientThreadView,
    new: ClientThreadView,
    request: FrillsClientToServer,
    reply_to: Sender<NewMessages>,
    action: ClientThreadAction,
)
    requires
        thread_handled(old, new, FrillsMessage::ClientToServer(request), reply_to, action),
    ensures
        request matches FrillsClientToServer::PushMessages { topic, messages } ==> new == old
            && action == ClientThreadAction::ToMaster(ClientToMasterMessage::PushMessages { topic, messages }),
        request matches FrillsClientToServer::RegisterTopic { name } ==> new == old
            && action == ClientThreadAction::ToMaster(ClientToMasterMessage::RegisterTopic { name }),
        request is Shutdown ==> new == old && action == ClientThreadAction::ToMaster(ClientToMasterMessage::Shutdown),
{
}

/// For a client registered as service `service`, an ACK (of one id or of a set)
/// is forwarded as an ACK of exactly those ids for that service, and a NACK as a
/// NACK; an ACK is never forwarded as a NACK nor the other way round.
pub proof fn law_settlements_keep_their_kind(
    old: ClientThreadView,
    new: ClientThreadView,
    request: FrillsClientToServer,
    reply_to: Sender<NewMessages>,
    action: ClientThreadAction,
    service: Seq<char>,
)
    requires
        thread_handled(old, new, FrillsMessage::ClientToServer(request), reply_to, action),
        old.service_name == Some(service),
    ensures
        request matches FrillsClientToServer::ACKMessageSet { message_ids } ==> new == old
            && (action matches ClientThreadAction::ToMaster(ClientToMasterMessage::ACK { message_ids: ids, service: s })
            && ids@ == message_ids@ && s@ == service),
        request matches FrillsClientToServer::ACKMessage { message_id } ==> new == old
            && (action matches ClientThreadAction::ToMaster(ClientToMasterMessage::ACK { message_ids: ids, service: s })
            && ids@ == seq![message_id] && s@ == service),
        request matches FrillsClientToServer::NACKMessageSet { message_ids } ==> new == old
            && (action matches ClientThreadAction::ToMaster(ClientToMasterMessage::NACK { message_ids: ids, service: s })
            && ids@ == message_ids@ && s@ == service),
        request matches FrillsClientToServer::NACKMessage { message_id } ==> new == old
            && (action matches ClientThreadAction::ToMaster(ClientToMasterMessage::NACK { message_ids: ids, service: s })
            && ids@ == seq![message_id] && s@ == service),
{
}

/// For a client registered as service `service`, a subscription is forwarded for
/// that service and topic, and a pull for that service, with the connection's
/// reply channel and the requested count.
pub proof fn law_service_requests_name_the_service(
    old: ClientThreadView,
    new: ClientThreadView,
    request: FrillsClientToServer,
    reply_to: Sender<NewMessages>,
    action: ClientThreadAction,
    service: Seq<char>,
)
    requires
        thread_handled(old, new, FrillsMessage::ClientToServer(request), reply_to, action),
        old.service_name == Some(service),
    ensures
        request matches FrillsClientToServer::SubscribeToTopic { topic_name } ==> new == old
            && (action matches ClientThreadAction::ToMaster(ClientToMasterMessage::SubscribeServiceToTopic { service: s, topic })
            && s@ == service && topic == topic_name),
        request matches FrillsClientToServer::PullMessages { count } ==> new == old
            && (action matches ClientThreadAction::ToMaster(ClientToMasterMessage::PullMessages { service: s, client, count: c })
            && s@ == service && client == reply_to && c == count),
{
}

/// Before the client registers as a service, a request that needs one
/// (subscription, pull, ACK, NACK) is dropped and the state is unchanged.
pub proof fn law_service_requests_need_a_service(
    old: ClientThreadView,
    new: ClientThreadView,
    request: FrillsClientToServer,
    reply_to: Sender<NewMessages>,
    action: ClientThreadAction,
)
    requires
        thread_handled(old, new, FrillsMessage::ClientToServer(request), reply_to, action),
        old.service_name is None,
        request is SubscribeToTopic || request is PullMessages || request is ACKMessage || request is ACKMessageSet
            || request is NACKMessage || request is NACKMessageSet,
    ensures
        action is Nothing,
        new == old,
{
}

/// The first registration as a service is forwarded and remembered; a later one
/// is dropped and the first name kept. A disconnect ends the session, forwards
/// nothing and keeps the name; a message meant for clients is reported as
/// unexpected and changes nothing.
pub proof fn law_registration_and_disconnect(
    old: ClientThreadView,
    new: ClientThreadView,
    message: FrillsMessage,
    reply_to: Sender<NewMessages>,
    action: ClientThreadAction,
)
    requires
        thread_handled(old, new, message, reply_to, action),
    ensures
        message matches FrillsMessage::ClientToServer(FrillsClientToServer::RegisterAsService { name }) ==> if old.service_name is None {
            new.service_name == Some(name@) && new.shutdown == old.shutdown
                && action == ClientThreadAction::ToMaster(ClientToMasterMessage::RegisterService { name })
        } else {
            new == old && action is Nothing
        },
        message matches FrillsMessage::ClientToServer(FrillsClientToServer::Disconnect) ==> new.shutdown
            && new.service_name == old.service_name && action is Nothing,
        message is ServerToClient ==> new == old && action is Unexpected,
{
}

/// A connection registers as at most one service: once it has a service name, no
/// message from its client changes it; and a connection whose client has
/// disconnected stays disconnected.
pub proof fn law_session_identity_is_stable(
    old: ClientThreadView,
    new: ClientThreadView,
    message: FrillsMessage,
    reply_to: Sender<NewMessages>,
    action: ClientThreadAction,
)
    requires
        thread_handled(old, new, message, reply_to, action),
    ensures
        old.service_name is Some ==> new.service_name == old.service_name,
        old.shutdown ==> new.shutdown,
{
}

impl ClientThread {
    /// A connection whose client has not registered as a service yet.
    pub fn new() -> (t: ClientThread)
        ensures
            t@ == (ClientThreadView { service_name: None, shutdown: false }),
    {
        ClientThread { service_name: None, shutdown: false }
    }

    /// Whether the client has disconnected.
    pub fn is_shutdown(&self) -> (b: bool)
        ensures
            b == self@.shutdown,
    {
        self.shutdown
    }

    /// The request asking the broker to shut down.
    pub fn perform_master_shutdown(&self) -> (m: ClientToMasterMessage)
        ensures
            m == ClientToMasterMessage::Shutdown,
    {
        ClientToMasterMessage::Shutdown
    }

    /// The message that carries a batch of pulled messages back to the client:
    /// each payload with its id, in the batch's order.
    pub fn return_message_to_client(&self, message: NewMessages) -> (m: FrillsMessage)
        ensures
            m matches FrillsMessage::ServerToClient(FrillsServerToClient::PulledMessages { messages })
                && pulled_view(messages@) == message@.map_values(|p: (u32, Seq<u8>)| (p.1, p.0)),
    {
        let ghost batch = message@;
        let mut source = message.messages;
        let mut out: Vec<(Vec<u8>, u32)> = Vec::new();
        let ghost all = source@;
        let n = source.len();
        let mut i: usize = 0;
        while i < n
            invariant
                n == all.len(),
                i <= n,
                source@ == all.skip(i as int),
                batch == all.map_values(|m: crate::server::message::NewMessage| m@),
                pulled_view(out@) == batch.take(i as int).map_values(|p: (u32, Seq<u8>)| (p.1, p.0)),
            decreases n - i,
        {
            let m = source.remove(0);
            proof {
                assert(m == all[i as int]);
                assert(all.skip(i + 1) =~= all.skip(i as int).subrange(1, all.skip(i as int).len() as int));
            }
            let ghost prev = out@;
            out.push((m.message, m.message_id));
            proof {
                assert(pulled_view(out@) =~= pulled_view(prev).push((all[i as int].message@, all[i as int].message_id)));
                assert(batch.take(i + 1) =~= batch.take(i as int).push(batch[i as int]));
                assert(batch.take(i + 1).map_values(|p: (u32, Seq<u8>)| (p.1, p.0)) =~= batch.take(i as int).map_values(|p: (u32, Seq<u8>)| (p.1, p.0)).push((batch[i as int].1, batch[i as int].0)));
            }
            i = i + 1;
        }
        proof {
            assert(batch.take(n as int) =~= batch);
        }
        FrillsMessage::ServerToClient(FrillsServerToClient::PulledMessages { messages: out })
    }

    fn settle(&self, message_ids: Vec<u32>, is_nack: bool) -> (a: ClientThreadAction)
        ensures
            match self@.service_name {
                Some(service) => settles(a, service, message_ids@, is_nack),
                None => a is Nothing,
            },
    {
        match &self.service_name {
            Some(name) => {
                let service = name.clone();
                if is_nack {
                    ClientThreadAction::ToMaster(ClientToMasterMessage::NACK { message_ids, service })
                } else {
                    ClientThreadAction::ToMaster(ClientToMasterMessage::ACK { message_ids, service })
                }
            },
            None => ClientThreadAction::Nothing,
        }
    }

    /// Handles one message from the client; `reply_to` is the channel on which
    /// pulled messages reach this connection.
    pub fn process_tcp(&mut self, message: FrillsMessage, reply_to: Sender<NewMessages>) -> (a: ClientThreadAction)
        ensures
            thread_handled(old(self)@, final(self)@, message, reply_to, a),
    {
        match message {
            FrillsMessage::ClientToServer(request) => match request {
                FrillsClientToServer::Disconnect => {
                    self.shutdown = true;
                    ClientThreadAction::Nothing
                },
                FrillsClientToServer::Shutdown => ClientThreadAction::ToMaster(self.perform_master_shutdown()),
                FrillsClientToServer::RegisterTopic { name } => {
                    ClientThreadAction::ToMaster(ClientToMasterMessage::RegisterTopic { name })
                },
                FrillsClientToServer::RegisterAsService { name } => {
                    match self.service_name {
                        Some(_) => ClientThreadAction::Nothing,
                        None => {
                            self.service_name = Some(name.clone());
                            ClientThreadAction::ToMaster(ClientToMasterMessage::RegisterService { name })
                        },
                    }
                },
                FrillsClientToServer::SubscribeToTopic { topic_name } => {
                    match &self.service_name {
                        Some(service_name) => ClientThreadAction::ToMaster(
                            ClientToMasterMessage::SubscribeServiceToTopic { service: service_name.clone(), topic: topic_name },
                        ),
                        None => ClientThreadAction::Nothing,
                    }
                },
                FrillsClientToServer::PushMessages { topic, messages } => {
                    ClientThreadAction::ToMaster(ClientToMasterMessage::PushMessages { topic, messages })
                },
                FrillsClientToServer::PullMessages { count } => {
                    match &self.service_name {
                        Some(name) => ClientThreadAction::ToMaster(
                            ClientToMasterMessage::PullMessages { service: name.clone(), client: reply_to, count },
                        ),
                        None => ClientThreadAction::Nothing,
                    }
                },
                FrillsClientToServer::ACKMessage { message_id } => {
                    let ids = vec![message_id];
                    assert(ids@ =~= seq![message_id]);
                    self.settle(ids, false)
                },
                FrillsClientToServer::ACKMessageSet { message_ids } => self.settle(message_ids, false),
                FrillsClientToServer::NACKMessage { message_id } => {
                    let ids = vec![message_id];
                    assert(ids@ =~= seq![message_id]);
                    self.settle(ids, true)
                },
                FrillsClientToServer::NACKMessageSet { message_ids } => self.settle(message_ids, true),
            },
            FrillsMessage::ServerToClient(_) => ClientThreadAction::Unexpected,
        }
    }
}

} // verus!
