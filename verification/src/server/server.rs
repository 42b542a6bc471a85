//! The broker's routing state and its handling of each request.

use vstd::prelude::*;

use crate::server::message::{ClientToMasterMessage, NewMessages, PendingReply};
use crate::server::registry::Registry;
use crate::server::service::{
    Service, ServiceView, ack_ids_ok, empty_service, payloads, pulled, spec_ack, spec_enqueue,
};
use crate::server::topic::{Topic, names_of};
use tokio::sync::mpsc::Sender;

verus! {

/// What the broker holds: each service by name, each topic's subscribers by
/// topic name, and whether a shutdown was requested.
pub struct ServerView {
    pub services: Map<Seq<char>, ServiceView>,
    pub topics: Map<Seq<char>, Set<Seq<char>>>,
    pub shutdown: bool,
}

/// The broker's routing state.
pub struct FrillsServer {
    services: Registry<Service>,
    topics: Registry<Topic>,
    shutdown: bool,
}

impl View for FrillsServer {
    type V = ServerView;

    closed spec fn view(&self) -> ServerView {
        ServerView {
            services: self.services@,
            topics: Map::new(
                |t: Seq<char>| self.topics@.dom().contains(t),
                |t: Seq<char>| self.topics@[t].to_set(),
            ),
            shutdown: self.shutdown,
        }
    }
}

/// The state after registering topic `name`; a topic already registered keeps
/// its subscribers.
pub open spec fn spec_register_topic(s: ServerView, name: Seq<char>) -> ServerView {
    if s.topics.dom().contains(name) {
        s
    } else {
        ServerView { topics: s.topics.insert(name, Set::empty()), ..s }
    }
}

/// The state after registering service `name`; a service already registered
/// keeps its queue.
pub open spec fn spec_register_service(s: ServerView, name: Seq<char>) -> ServerView {
    if s.services.dom().contains(name) {
        s
    } else {
        ServerView { services: s.services.insert(name, empty_service()), ..s }
    }
}

/// The state after subscribing `service` to `topic`; nothing changes unless both
/// are registered.
pub open spec fn spec_subscribe(s: ServerView, topic: Seq<char>, service: Seq<char>) -> ServerView {
    if s.topics.dom().contains(topic) && s.services.dom().contains(service) {
        ServerView { topics: s.topics.insert(topic, s.topics[topic].insert(service)), ..s }
    } else {
        s
    }
}

/// The state after pushing `messages` to `topic`: every registered service
/// subscribed to the topic gets them at the back of its queue; nothing changes
/// for an unregistered topic.
pub open spec fn spec_push(s: ServerView, topic: Seq<char>, messages: Seq<Seq<u8>>) -> ServerView {
    if s.topics.dom().contains(topic) {
        ServerView {
            services: Map::new(
                |n: Seq<char>| s.services.dom().contains(n),
                |n: Seq<char>|
                    if s.topics[topic].contains(n) {
                        spec_enqueue(s.services[n], messages)
                    } else {
                        s.services[n]
                    },
            ),
            ..s
        }
    } else {
        s
    }
}

/// The state after an ACK or NACK of `ids` by `service`; nothing changes for an
/// unregistered service.
pub open spec fn spec_settle(s: ServerView, service: Seq<char>, ids: Seq<u32>, is_nack: bool) -> ServerView {
    if s.services.dom().contains(service) {
        ServerView { services: s.services.insert(service, spec_ack(s.services[service], ids, is_nack)), ..s }
    } else {
        s
    }
}

/// A pull of `count` by `service` that answered `out`: only that service changes,
/// as `pulled` describes.
pub open spec fn server_pulled(
    old: ServerView,
    new: ServerView,
    service: Seq<char>,
    count: u32,
    out: Seq<(u32, Seq<u8>)>,
) -> bool {
    &&& old.services.dom().contains(service)
    &&& new.services.dom().contains(service)
    &&& pulled(old.services[service], new.services[service], count, out)
    &&& new.services == old.services.insert(service, new.services[service])
    &&& new.topics == old.topics
    &&& new.shutdown == old.shutdown
}

/// The request can be carried out without a panic: an ACK or NACK names no
/// in-flight message twice.
pub open spec fn request_ok(s: ServerView, message: ClientToMasterMessage) -> bool {
    match message {
        ClientToMasterMessage::ACK { message_ids, service } => s.services.dom().contains(service@)
            ==> ack_ids_ok(s.services[service@], message_ids@),
        ClientToMasterMessage::NACK { message_ids, service } => s.services.dom().contains(service@)
            ==> ack_ids_ok(s.services[service@], message_ids@),
        _ => true,
    }
}

/// How the broker answers `message` in state `old`: the state `new` it moves to
/// and the reply it owes.
pub open spec fn handled(
    old: ServerView,
    new: ServerView,
    message: ClientToMasterMessage,
    reply: Option<PendingReply>,
) -> bool {
    match message {
        ClientToMasterMessage::RegisterTopic { name } => reply is None && new == spec_register_topic(old, name@),
        ClientToMasterMessage::RegisterService { name } => reply is None && new == spec_register_service(old, name@),
        ClientToMasterMessage::SubscribeServiceToTopic { service, topic } => reply is None
            && new == spec_subscribe(old, topic@, service@),
        ClientToMasterMessage::PushMessages { topic, messages } => reply is None
            && new == spec_push(old, topic@, payloads(messages@)),
        ClientToMasterMessage::PullMessages { service, client, count } => if old.services.dom().contains(service@) {
            &&& reply is Some
            &&& reply->0.client == client
            &&& server_pulled(old, new, service@, count, reply->0.messages@)
        } else {
            reply is None && new == old
        },
        ClientToMasterMessage::ACK { message_ids, service } => reply is None
            && new == spec_settle(old, service@, message_ids@, false),
        ClientToMasterMessage::NACK { message_ids, service } => reply is None
            && new == spec_settle(old, service@, message_ids@, true),
        ClientToMasterMessage::Disconnect => reply is None && new == old,
        ClientToMasterMessage::Shutdown => reply is None && new == ServerView { shutdown: true, ..old },
    }
}

/// A copy of a batch of payloads.
fn copy_messages(messages: &Vec<Vec<u8>>) -> (c: Vec<Vec<u8>>)
    ensures
        payloads(c@) == payloads(messages@),
{
    let mut c: Vec<Vec<u8>> = Vec::new();
    let mut i: usize = 0;
    while i < messages.len()
        invariant
            i <= messages.len(),
            payloads(c@) == payloads(messages@.take(i as int)),
        decreases messages.len() - i,
    {
        let copy = messages[i].clone();
        proof {
            assert(copy@ =~= messages@[i as int]@);
        }
        let ghost prev = c@;
        c.push(copy);
        proof {
            assert(messages@.take(i + 1) =~= messages@.take(i as int).push(messages@[i as int]));
            assert(payloads(c@) =~= payloads(prev).push(copy@));
            assert(payloads(messages@.take(i + 1)) =~= payloads(messages@.take(i as int)).push(copy@));
        }
        i = i + 1;
    }
    proof {
        assert(messages@.take(i as int) =~= messages@);
    }
    c
}

impl FrillsServer {
    /// The invariant of the state: no name occurs twice among the services, among
    /// the topics, or among one topic's subscribers.
    pub closed spec fn wf(&self) -> bool {
        &&& self.services.wf()
        &&& self.topics.wf()
        &&& forall|t: Seq<char>| #[trigger] self.topics@.dom().contains(t) ==> self.topics@[t].no_duplicates()
    }

    /// A broker with no services, no topics, and no shutdown requested.
    pub fn new() -> (s: FrillsServer)
        ensures
            s.wf(),
            s@ == (ServerView { services: Map::empty(), topics: Map::empty(), shutdown: false }),
    {
        let s = FrillsServer { services: Registry::new(), topics: Registry::new(), shutdown: false };
        assert(s@.topics =~= Map::<Seq<char>, Set<Seq<char>>>::empty());
        s
    }

    /// Whether a shutdown was requested.
    pub fn is_shutdown(&self) -> (b: bool)
        ensures
            b == self@.shutdown,
    {
        self.shutdown
    }

    /// Records that a shutdown was requested.
    pub fn perform_shutdown(&mut self)
        requires
            old(self).wf(),
        ensures
            final(self).wf(),
            final(self)@ == (ServerView { shutdown: true, ..old(self)@ }),
    {
        self.shutdown = true;
    }

    /// Registers a topic, unless it is registered already.
    pub fn register_topic(&mut self, name: String)
        requires
            old(self).wf(),
        ensures
            final(self).wf(),
            final(self)@ == spec_register_topic(old(self)@, name@),
    {
        if !self.topics.contains_key(&name) {
            let ghost key = name@;
            self.topics.insert_new(name, Topic::new());
            proof {
                assert(Seq::<Seq<char>>::empty().to_set() =~= Set::<Seq<char>>::empty());
                assert(self@.topics =~= old(self)@.topics.insert(key, Set::empty()));
            }
        }
    }

    /// Registers a service, unless it is registered already.
    pub fn register_service(&mut self, name: String)
        requires
            old(self).wf(),
        ensures
            final(self).wf(),
            final(self)@ == spec_register_service(old(self)@, name@),
    {
        if !self.services.contains_key(&name) {
            self.services.insert_new(name, Service::new());
        }
    }

    /// Subscribes a registered service to a registered topic.
    pub fn subscribe_service_to_topic(&mut self, topic_name: String, service_name: String)
        requires
            old(self).wf(),
        ensures
            final(self).wf(),
            final(self)@ == spec_subscribe(old(self)@, topic_name@, service_name@),
    {
        if !self.topics.contains_key(&topic_name) {
            return;
        }
        if self.services.contains_key(&service_name) {
            let ghost tkey = topic_name@;
            let ghost skey = service_name@;
            match self.topics.take(&topic_name) {
                Some(mut topic) => {
                    let ghost before = topic@;
                    topic.register_service(service_name);
                    let ghost after = topic@;
                    self.topics.insert_new(topic_name, topic);
                    proof {
                        assert(after.to_set() =~= before.to_set().insert(skey)) by {
                            if before.contains(skey) {
                                assert forall|x: Seq<char>| #![auto] before.to_set().insert(skey).contains(x) implies before.to_set().contains(x) by {}
                            } else {
                                crate::lemmas::lemma_push_to_set(before, skey);
                            }
                        }
                        assert(after.no_duplicates()) by {
                            if !before.contains(skey) {
                                assert forall|a: int, b: int| 0 <= a < b < after.len() implies after[a] != after[b] by {
                                    if b == after.len() - 1 {
                                        assert(before[a] == after[a]);
                                    } else {
                                        assert(before[a] == after[a] && before[b] == after[b]);
                                    }
                                }
                            }
                        }
                        assert(self@.topics =~= old(self)@.topics.insert(tkey, old(self)@.topics[tkey].insert(skey)));
                    }
                },
                None => {},
            }
        }
    }
    /// Pushes `messages` to every registered service subscribed to `topic`.
    pub fn push_messages(&mut self, topic: String, messages: Vec<Vec<u8>>)
        requires
            old(self).wf(),
        ensures
            final(self).wf(),
            final(self)@ == spec_push(old(self)@, topic@, payloads(messages@)),
    {
        let subscribed = match self.topics.get(&topic) {
            Some(t) => t.registered_services(),
            None => return,
        };
        let ghost subv = names_of(subscribed@);
        let ghost msgs = payloads(messages@);
        let ghost old_services = old(self).services@;
        proof {
            assert(subv.take(0) =~= Seq::<Seq<char>>::empty());
            assert(self.services@ =~= Map::new(
                |n: Seq<char>| old_services.dom().contains(n),
                |n: Seq<char>| if subv.take(0).contains(n) { spec_enqueue(old_services[n], msgs) } else { old_services[n] },
            ));
        }
        let mut i: usize = 0;
        while i < subscribed.len()
            invariant
                i <= subscribed@.len(),
                names_of(subscribed@) == subv,
                old(self).topics@.dom().contains(topic@),
                subv == old(self).topics@[topic@],
                subv.no_duplicates(),
                msgs == payloads(messages@),
                self.services.wf(),
                self.topics == old(self).topics,
                self.shutdown == old(self).shutdown,
                old_services == old(self).services@,
                self.services@ == Map::new(
                    |n: Seq<char>| old_services.dom().contains(n),
                    |n: Seq<char>| if subv.take(i as int).contains(n) { spec_enqueue(old_services[n], msgs) } else { old_services[n] },
                ),
            decreases subscribed@.len() - i,
        {
            let name = &subscribed[i];
            let ghost key = name@;
            proof {
                assert(subv[i as int] == key);
                assert(subv.take(i + 1) =~= subv.take(i as int).push(key));
                if subv.take(i as int).contains(key) {
                    let j = choose|j: int| 0 <= j < i && subv.take(i as int)[j] == key;
                    assert(subv[j] == subv[i as int]);
                }
            }
            let ghost before = self.services@;
            let ghost pre = subv.take(i as int);
            let ghost post = subv.take(i + 1);
            match self.services.take(name) {
                Some(mut service) => {
                    proof {
                        assert(!pre.contains(key));
                        assert(service@ == old_services[key]);
                    }
                    service.enqueue_messages(copy_messages(&messages));
                    let ghost updated = service@;
                    self.services.insert_new(name.clone(), service);
                    proof {
                        assert(updated == spec_enqueue(old_services[key], msgs));
                        assert(self.services@ == before.remove(key).insert(key, updated));
                        assert forall|n: Seq<char>| #[trigger] self.services@.dom().contains(n) implies self.services@[n] == (if post.contains(n) { spec_enqueue(old_services[n], msgs) } else { old_services[n] }) by {
                            if n != key {
                                assert(post.contains(n) == pre.contains(n)) by {
                                    if post.contains(n) {
                                        let j = choose|j: int| 0 <= j < i + 1 && post[j] == n;
                                        assert(pre[j] == n);
                                    }
                                    if pre.contains(n) {
                                        let j = choose|j: int| 0 <= j < i && pre[j] == n;
                                        assert(post[j] == n);
                                    }
                                }
                            } else {
                                assert(post[i as int] == key);
                            }
                        }
                        assert(self.services@ =~= Map::new(
                            |n: Seq<char>| old_services.dom().contains(n),
                            |n: Seq<char>| if post.contains(n) { spec_enqueue(old_services[n], msgs) } else { old_services[n] },
                        ));
                    }
                },
                None => {
                    proof {
                        assert forall|n: Seq<char>| #[trigger] old_services.dom().contains(n) implies post.contains(n) == pre.contains(n) by {
                            if post.contains(n) {
                                let j = choose|j: int| 0 <= j < i + 1 && post[j] == n;
                                if j < i {
                                    assert(pre[j] == n);
                                }
                            }
                            if pre.contains(n) {
                                let j = choose|j: int| 0 <= j < i && pre[j] == n;
                                assert(post[j] == n);
                            }
                        }
                        assert(self.services@ =~= Map::new(
                            |n: Seq<char>| old_services.dom().contains(n),
                            |n: Seq<char>| if post.contains(n) { spec_enqueue(old_services[n], msgs) } else { old_services[n] },
                        ));
                    }
                },
            }
            i = i + 1;
        }
        proof {
            assert(subv.take(i as int) =~= subv);
            assert(self@.services =~= spec_push(old(self)@, topic@, msgs).services);
        }
    }

    /// Hands out up to `count` messages of `service` to the client behind
    /// `client`; an unregistered service gets no answer.
    pub fn pull_message(&mut self, service: String, client: Sender<NewMessages>, count: u32) -> (r: Option<PendingReply>)
        requires
            old(self).wf(),
        ensures
            final(self).wf(),
            if old(self)@.services.dom().contains(service@) {
                &&& r is Some
                &&& r->0.client == client
                &&& server_pulled(old(self)@, final(self)@, service@, count, r->0.messages@)
            } else {
                r is None && final(self)@ == old(self)@
            },
    {
        match self.services.take(&service) {
            Some(mut s) => {
                let messages = s.pull_messages(count);
                let ghost key = service@;
                let ghost after = s@;
                self.services.insert_new(service, s);
                proof {
                    assert(self.services@ =~= old(self).services@.insert(key, after));
                }
                Some(PendingReply { client, messages })
            },
            None => None,
        }
    }

    fn settle_messages(&mut self, service: String, message_ids: Vec<u32>, is_nack: bool)
        requires
            old(self).wf(),
            old(self)@.services.dom().contains(service@) ==> ack_ids_ok(old(self)@.services[service@], message_ids@),
        ensures
            final(self).wf(),
            final(self)@ == spec_settle(old(self)@, service@, message_ids@, is_nack),
    {
        match self.services.take(&service) {
            Some(mut s) => {
                s.ack_messages(message_ids, is_nack);
                let ghost key = service@;
                let ghost after = s@;
                self.services.insert_new(service, s);
                proof {
                    assert(self.services@ =~= old(self).services@.insert(key, after));
                }
            },
            None => {},
        }
    }

    /// Acknowledges messages of `service`: those in flight are dropped for good.
    pub fn ack_messages(&mut self, service: String, message_ids: Vec<u32>)
        requires
            old(self).wf(),
            old(self)@.services.dom().contains(service@) ==> ack_ids_ok(old(self)@.services[service@], message_ids@),
        ensures
            final(self).wf(),
            final(self)@ == spec_settle(old(self)@, service@, message_ids@, false),
    {
        self.settle_messages(service, message_ids, false)
    }

    /// Refuses messages of `service`: those in flight go back to its queue.
    pub fn nack_messages(&mut self, service: String, message_ids: Vec<u32>)
        requires
            old(self).wf(),
            old(self)@.services.dom().contains(service@) ==> ack_ids_ok(old(self)@.services[service@], message_ids@),
        ensures
            final(self).wf(),
            final(self)@ == spec_settle(old(self)@, service@, message_ids@, true),
    {
        self.settle_messages(service, message_ids, true)
    }

    /// Whether `message` can be carried out without a panic: an ACK or NACK must
    /// not name an in-flight message twice.
    pub fn accepts(&self, message: &ClientToMasterMessage) -> (b: bool)
        requires
            self.wf(),
        ensures
            b == request_ok(self@, *message),
    {
        match message {
            ClientToMasterMessage::ACK { message_ids, service } => match self.services.get(service) {
                Some(s) => s.ack_ids_acceptable(message_ids),
                None => true,
            },
            ClientToMasterMessage::NACK { message_ids, service } => match self.services.get(service) {
                Some(s) => s.ack_ids_acceptable(message_ids),
                None => true,
            },
            _ => true,
        }
    }

    /// Carries out one request and returns the reply it owes, if any.
    pub fn process_client_message(&mut self, message: ClientToMasterMessage) -> (r: Option<PendingReply>)
        requires
            old(self).wf(),
            request_ok(old(self)@, message),
        ensures
            final(self).wf(),
            handled(old(self)@, final(self)@, message, r),
    {
        match message {
            ClientToMasterMessage::Shutdown => {
                self.perform_shutdown();
                None
            },
            ClientToMasterMessage::RegisterTopic { name } => {
                self.register_topic(name);
                None
            },
            ClientToMasterMessage::RegisterService { name } => {
                self.register_service(name);
                None
            },
            ClientToMasterMessage::SubscribeServiceToTopic { topic, service } => {
                self.subscribe_service_to_topic(topic, service);
                None
            },
            ClientToMasterMessage::PushMessages { topic, messages } => {
                self.push_messages(topic, messages);
                None
            },
            ClientToMasterMessage::PullMessages { service, client, count } => {
                self.pull_message(service, client, count)
            },
            ClientToMasterMessage::ACK { service, message_ids } => {
                self.ack_messages(service, message_ids);
                None
            },
            ClientToMasterMessage::NACK { service, message_ids } => {
                self.nack_messages(service, message_ids);
                None
            },
            ClientToMasterMessage::Disconnect => None,
        }
    }
}

} // verus!
