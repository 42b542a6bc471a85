use frills::server::message::{ClientToMasterMessage, NewMessages, PendingReply};
use frills::server::registry::Registry;
use frills::server::service::Service;
use frills::server::topic::Topic;
use frills::FrillsServer;
use tokio::sync::mpsc::{channel, Receiver, Sender};

fn reply_channel() -> (Sender<NewMessages>, Receiver<NewMessages>) {
    channel(16)
}

fn s(text: &str) -> String {
    text.to_string()
}

fn bytes(text: &str) -> Vec<u8> {
    text.as_bytes().to_vec()
}

fn pull(server: &mut FrillsServer, service: &str, count: u32) -> Option<Vec<(u32, Vec<u8>)>> {
    let (tx, _rx) = reply_channel();
    let reply: Option<PendingReply> =
        server.process_client_message(ClientToMasterMessage::PullMessages { service: s(service), client: tx, count });
    reply.map(|r| r.messages.messages.into_iter().map(|m| (m.message_id, m.message)).collect())
}

fn payloads(batch: &[(u32, Vec<u8>)]) -> Vec<Vec<u8>> {
    batch.iter().map(|(_, p)| p.clone()).collect()
}

fn ids(batch: &[(u32, Vec<u8>)]) -> Vec<u32> {
    batch.iter().map(|(id, _)| *id).collect()
}

fn setup(server: &mut FrillsServer, services: &[&str], topic: &str) {
    server.process_client_message(ClientToMasterMessage::RegisterTopic { name: s(topic) });
    for service in services {
        server.process_client_message(ClientToMasterMessage::RegisterService { name: s(service) });
        server.process_client_message(ClientToMasterMessage::SubscribeServiceToTopic {
            service: s(service),
            topic: s(topic),
        });
    }
}

fn push(server: &mut FrillsServer, topic: &str, messages: &[&str]) {
    server.process_client_message(ClientToMasterMessage::PushMessages {
        topic: s(topic),
        messages: messages.iter().map(|m| bytes(m)).collect(),
    });
}

#[test]
fn service_pull_hands_out_front_in_order() {
    let mut service = Service::new();
    service.enqueue_messages(vec![bytes("a"), bytes("b"), bytes("c")]);
    let out = service.pull_messages(2);
    assert_eq!(out.messages.len(), 2);
    assert_eq!(out.messages[0].message, bytes("a"));
    assert_eq!(out.messages[1].message, bytes("b"));
    assert_ne!(out.messages[0].message_id, out.messages[1].message_id);
    let rest = service.pull_messages(10);
    assert_eq!(rest.messages.len(), 1);
    assert_eq!(rest.messages[0].message, bytes("c"));
}

#[test]
fn service_pull_from_empty_queue_is_empty() {
    let mut service = Service::new();
    assert_eq!(service.pull_messages(5).messages.len(), 0);
    service.enqueue_messages(vec![bytes("x")]);
    assert_eq!(service.pull_messages(0).messages.len(), 0);
    assert_eq!(service.pull_messages(1).messages.len(), 1);
}

#[test]
fn service_nack_requeues_at_back() {
    let mut service = Service::new();
    service.enqueue_messages(vec![bytes("a"), bytes("b"), bytes("c")]);
    let out = service.pull_messages(2);
    let first = out.messages[0].message_id;
    let second = out.messages[1].message_id;
    service.ack_messages(vec![second, first], true);
    let again = service.pull_messages(10);
    let got: Vec<Vec<u8>> = again.messages.iter().map(|m| m.message.clone()).collect();
    assert_eq!(got, vec![bytes("c"), bytes("b"), bytes("a")]);
}

#[test]
fn service_ack_drops_for_good() {
    let mut service = Service::new();
    service.enqueue_messages(vec![bytes("a"), bytes("b")]);
    let out = service.pull_messages(1);
    service.ack_messages(vec![out.messages[0].message_id], false);
    // a NACK of an acknowledged id is ignored
    service.ack_messages(vec![out.messages[0].message_id], true);
    let rest = service.pull_messages(10);
    assert_eq!(rest.messages.len(), 1);
    assert_eq!(rest.messages[0].message, bytes("b"));
}

#[test]
fn service_unknown_ids_are_ignored() {
    let mut service = Service::new();
    service.enqueue_messages(vec![bytes("a")]);
    service.ack_messages(vec![7, 8, 9], true);
    let out = service.pull_messages(10);
    assert_eq!(out.messages.len(), 1);
    assert_eq!(out.messages[0].message, bytes("a"));
}

#[test]
fn service_register_client_is_accepted_twice() {
    let mut service = Service::new();
    service.register_client(3);
    service.register_client(3);
    assert_eq!(service.pull_messages(1).messages.len(), 0);
}

#[test]
fn topic_register_service_keeps_one_entry() {
    let mut topic = Topic::new();
    assert!(topic.registered_services().is_empty());
    topic.register_service(s("A"));
    topic.register_service(s("B"));
    topic.register_service(s("A"));
    assert_eq!(topic.registered_services(), &vec![s("A"), s("B")]);
}

#[test]
fn registry_insert_take_get() {
    let mut registry: Registry<Topic> = Registry::new();
    assert!(!registry.contains_key(&s("t")));
    registry.insert_new(s("t"), Topic::new());
    assert!(registry.contains_key(&s("t")));
    assert!(registry.get(&s("t")).is_some());
    assert!(registry.get(&s("u")).is_none());
    let taken = registry.take(&s("t"));
    assert!(taken.is_some());
    assert!(!registry.contains_key(&s("t")));
    assert!(registry.take(&s("t")).is_none());
}

#[test]
fn push_reaches_every_subscribed_service() {
    let mut server = FrillsServer::new();
    setup(&mut server, &["S1", "S2"], "MyTopic");
    server.process_client_message(ClientToMasterMessage::RegisterService { name: s("S3") });
    push(&mut server, "MyTopic", &["m1", "m2"]);
    let s1 = pull(&mut server, "S1", 10).unwrap();
    let s2 = pull(&mut server, "S2", 10).unwrap();
    let s3 = pull(&mut server, "S3", 10).unwrap();
    assert_eq!(payloads(&s1), vec![bytes("m1"), bytes("m2")]);
    assert_eq!(payloads(&s2), vec![bytes("m1"), bytes("m2")]);
    assert!(s3.is_empty());
}

#[test]
fn service_gets_messages_from_all_its_topics() {
    let mut server = FrillsServer::new();
    setup(&mut server, &["S"], "T1");
    setup(&mut server, &["S"], "T2");
    push(&mut server, "T1", &["one"]);
    push(&mut server, "T2", &["two"]);
    let out = pull(&mut server, "S", 10).unwrap();
    assert_eq!(payloads(&out), vec![bytes("one"), bytes("two")]);
}

#[test]
fn push_to_unregistered_topic_changes_nothing() {
    let mut server = FrillsServer::new();
    setup(&mut server, &["S"], "T");
    push(&mut server, "Other", &["lost"]);
    assert!(pull(&mut server, "S", 10).unwrap().is_empty());
}

#[test]
fn subscribe_needs_registered_topic_and_service() {
    let mut server = FrillsServer::new();
    server.process_client_message(ClientToMasterMessage::RegisterTopic { name: s("T") });
    // service not registered: the subscription is dropped
    server.process_client_message(ClientToMasterMessage::SubscribeServiceToTopic { service: s("S"), topic: s("T") });
    server.process_client_message(ClientToMasterMessage::RegisterService { name: s("S") });
    push(&mut server, "T", &["x"]);
    assert!(pull(&mut server, "S", 10).unwrap().is_empty());
    // topic not registered: dropped as well
    server.process_client_message(ClientToMasterMessage::SubscribeServiceToTopic { service: s("S"), topic: s("U") });
    push(&mut server, "U", &["y"]);
    assert!(pull(&mut server, "S", 10).unwrap().is_empty());
}

#[test]
fn instances_of_a_service_share_one_queue() {
    let mut server = FrillsServer::new();
    setup(&mut server, &["Shared"], "T");
    push(&mut server, "T", &["1", "2", "3"]);
    let first = pull(&mut server, "Shared", 1).unwrap();
    let second = pull(&mut server, "Shared", 1).unwrap();
    assert_eq!(payloads(&first), vec![bytes("1")]);
    assert_eq!(payloads(&second), vec![bytes("2")]);
}

#[test]
fn pull_for_unregistered_service_gets_no_reply() {
    let mut server = FrillsServer::new();
    assert!(pull(&mut server, "Nobody", 3).is_none());
}

#[test]
fn pull_reply_goes_to_the_requesting_client() {
    let mut server = FrillsServer::new();
    setup(&mut server, &["S"], "T");
    push(&mut server, "T", &["hello"]);
    let (tx, mut rx) = reply_channel();
    let reply = server
        .process_client_message(ClientToMasterMessage::PullMessages { service: s("S"), client: tx, count: 5 })
        .unwrap();
    reply.client.try_send(reply.messages).ok().unwrap();
    let received = rx.try_recv().ok().unwrap();
    assert_eq!(received.messages.len(), 1);
    assert_eq!(received.messages[0].message, bytes("hello"));
}

#[test]
fn nack_requeue_scenario() {
    let mut server = FrillsServer::new();
    setup(&mut server, &["NACKAndACK"], "DataStream");
    push(&mut server, "DataStream", &["0", "1", "2", "3"]);
    let batch = pull(&mut server, "NACKAndACK", 2).unwrap();
    assert_eq!(payloads(&batch), vec![bytes("0"), bytes("1")]);
    server.process_client_message(ClientToMasterMessage::NACK { message_ids: ids(&batch), service: s("NACKAndACK") });
    let all = pull(&mut server, "NACKAndACK", 10).unwrap();
    assert_eq!(payloads(&all), vec![bytes("2"), bytes("3"), bytes("0"), bytes("1")]);
    server.process_client_message(ClientToMasterMessage::ACK { message_ids: ids(&all), service: s("NACKAndACK") });
    server.process_client_message(ClientToMasterMessage::NACK { message_ids: ids(&all), service: s("NACKAndACK") });
    assert!(pull(&mut server, "NACKAndACK", 10).unwrap().is_empty());
}

#[test]
fn register_twice_keeps_queue() {
    let mut server = FrillsServer::new();
    setup(&mut server, &["S"], "T");
    push(&mut server, "T", &["kept"]);
    server.process_client_message(ClientToMasterMessage::RegisterService { name: s("S") });
    server.process_client_message(ClientToMasterMessage::RegisterTopic { name: s("T") });
    server.process_client_message(ClientToMasterMessage::SubscribeServiceToTopic { service: s("S"), topic: s("T") });
    push(&mut server, "T", &["once"]);
    let out = pull(&mut server, "S", 10).unwrap();
    assert_eq!(payloads(&out), vec![bytes("kept"), bytes("once")]);
}

#[test]
fn shutdown_and_disconnect() {
    let mut server = FrillsServer::new();
    assert!(!server.is_shutdown());
    assert!(server.process_client_message(ClientToMasterMessage::Disconnect).is_none());
    assert!(!server.is_shutdown());
    assert!(server.process_client_message(ClientToMasterMessage::Shutdown).is_none());
    assert!(server.is_shutdown());
}

#[test]
fn ack_of_unregistered_service_is_ignored() {
    let mut server = FrillsServer::new();
    server.process_client_message(ClientToMasterMessage::ACK { message_ids: vec![0, 0], service: s("X") });
    server.process_client_message(ClientToMasterMessage::NACK { message_ids: vec![1], service: s("X") });
    assert!(!server.is_shutdown());
}

#[test]
fn duplicate_in_flight_ids_are_refused_before_settling() {
    let mut server = FrillsServer::new();
    setup(&mut server, &["S"], "T");
    push(&mut server, "T", &["a", "b"]);
    let out = pull(&mut server, "S", 2).unwrap();
    let id = out[0].0;
    let twice = ClientToMasterMessage::ACK { message_ids: vec![id, id], service: s("S") };
    assert!(!server.accepts(&twice));
    let unknown_twice = ClientToMasterMessage::NACK { message_ids: vec![900, 900, id], service: s("S") };
    assert!(server.accepts(&unknown_twice));
    assert!(server.accepts(&ClientToMasterMessage::Shutdown));
    let mut service = Service::new();
    service.enqueue_messages(vec![bytes("z")]);
    let batch = service.pull_messages(1);
    let key = batch.messages[0].message_id;
    assert!(!service.ack_ids_acceptable(&vec![key, 1, key]));
    assert!(service.ack_ids_acceptable(&vec![key, 5, 5]));
}

#[test]
fn nack_of_pulled_message_then_pull_returns_it() {
    let mut server = FrillsServer::new();
    server.process_client_message(ClientToMasterMessage::RegisterService { name: s("S") });
    server.process_client_message(ClientToMasterMessage::RegisterTopic { name: s("T") });
    server.process_client_message(ClientToMasterMessage::SubscribeServiceToTopic { topic: s("T"), service: s("S") });
    server.process_client_message(ClientToMasterMessage::PushMessages { topic: s("T"), messages: vec![vec![7u8]] });
    let first = pull(&mut server, "S", 1).unwrap();
    assert_eq!(first.len(), 1);
    server.process_client_message(ClientToMasterMessage::NACK { service: s("S"), message_ids: vec![first[0].0] });
    let (tx, mut rx) = reply_channel();
    let reply = server
        .process_client_message(ClientToMasterMessage::PullMessages { service: s("S"), client: tx, count: 5 })
        .unwrap();
    reply.client.try_send(reply.messages).ok().unwrap();
    let received = rx.try_recv().ok().unwrap();
    assert_eq!(received.messages.len(), 1);
    assert_eq!(received.messages[0].message, vec![7u8]);
}
