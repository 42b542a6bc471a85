use frills::client::client::{BatchPoll, PollStep};
use frills::client::worker::{process_client_message, process_remote_message, FrillsClientTask};
use frills::codec::message::{FrillsClientToServer, FrillsMessage, FrillsServerToClient};
use frills::{Builder, FrillsClient, FrillsClientConfig, UnAckedFrillsMessage};

fn unacked(id: u32, payload: u8) -> UnAckedFrillsMessage {
    UnAckedFrillsMessage { message: vec![payload], message_id: id }
}

fn client_with_cache(cache: u16) -> FrillsClient {
    let builder = FrillsClient::builder("Svc").cache_size(cache);
    FrillsClient::new(builder.config())
}

#[test]
fn builder_defaults() {
    let builder = Builder::new("DogClient");
    let config = builder.config();
    assert_eq!(config.service_name(), "DogClient");
    assert_eq!(config.cache_size(), 16);
    assert_eq!(config.remote(), "127.0.0.1:12345");
    let config = FrillsClientConfig::default();
    assert_eq!(config.service_name(), "ClientService");
}

#[test]
fn builder_setters() {
    let builder = FrillsClient::builder("DogClient").remote_from_str("10.0.0.1:1").cache_size(1);
    assert_eq!(builder.config().remote(), "10.0.0.1:1");
    assert_eq!(builder.config().cache_size(), 1);
    assert_eq!(builder.config().service_name(), "DogClient");
    let builder = builder.remote("1.2.3.4:5".to_string());
    assert_eq!(builder.config().remote(), "1.2.3.4:5");
    assert_eq!(builder.config().cache_size(), 1);
}

#[test]
fn client_service_name() {
    let client = client_with_cache(3);
    assert_eq!(client.get_service_name(), "Svc");
}

#[test]
fn poll_requests_batch_then_waits() {
    let mut client = client_with_cache(7);
    match client.begin_poll(false) {
        PollStep::RequestBatch { count } => assert_eq!(count, 7),
        _ => panic!("expected a request"),
    }
    // a refused request is asked again
    assert!(!client.request_sent(false));
    assert!(matches!(client.begin_poll(false), PollStep::RequestBatch { count: 7 }));
    assert!(client.request_sent(true));
    assert!(matches!(client.begin_poll(false), PollStep::AwaitBatch));
    assert!(!client.batch_received(BatchPoll::Pending));
    assert!(matches!(client.begin_poll(true), PollStep::AwaitBatch));
}

#[test]
fn poll_ends_when_worker_gone() {
    let mut client = client_with_cache(2);
    assert!(matches!(client.begin_poll(true), PollStep::EndOfStream));
}

#[test]
fn poll_delivers_batch_last_first() {
    let mut client = client_with_cache(3);
    assert!(client.request_sent(true));
    assert!(client.batch_received(BatchPoll::Messages(vec![unacked(1, 10), unacked(2, 20), unacked(3, 30)])));
    let mut seen = Vec::new();
    for _ in 0..3 {
        match client.begin_poll(true) {
            PollStep::Deliver(m) => seen.push((m.message_id, m.message[0])),
            _ => panic!("expected a delivery"),
        }
    }
    assert_eq!(seen, vec![(3, 30), (2, 20), (1, 10)]);
    assert!(matches!(client.begin_poll(false), PollStep::RequestBatch { count: 3 }));
}

#[test]
fn poll_closed_channel_ends_wait() {
    let mut client = client_with_cache(3);
    client.request_sent(true);
    assert!(client.batch_received(BatchPoll::Closed));
    assert!(matches!(client.begin_poll(false), PollStep::RequestBatch { count: 3 }));
}

#[test]
fn worker_translates_tasks() {
    let m = process_client_message(FrillsClientTask::RegisterService { name: "S".to_string() });
    assert!(matches!(m, FrillsMessage::ClientToServer(FrillsClientToServer::RegisterAsService { ref name }) if name == "S"));
    let m = process_client_message(FrillsClientTask::SubscribeToTopic { name: "T".to_string() });
    assert!(matches!(m, FrillsMessage::ClientToServer(FrillsClientToServer::SubscribeToTopic { ref topic_name }) if topic_name == "T"));
    let m = process_client_message(FrillsClientTask::RegisterTopic { name: "T".to_string() });
    assert!(matches!(m, FrillsMessage::ClientToServer(FrillsClientToServer::RegisterTopic { ref name }) if name == "T"));
    let m = process_client_message(FrillsClientTask::PushMessages { topic: "T".to_string(), messages: vec![vec![1]] });
    assert!(matches!(m, FrillsMessage::ClientToServer(FrillsClientToServer::PushMessages { ref messages, .. }) if messages == &vec![vec![1u8]]));
    let m = process_client_message(FrillsClientTask::PullMessages { count: 9 });
    assert!(matches!(m, FrillsMessage::ClientToServer(FrillsClientToServer::PullMessages { count: 9 })));
    let m = process_client_message(FrillsClientTask::ACKMessage { message_id: 2 });
    assert!(matches!(m, FrillsMessage::ClientToServer(FrillsClientToServer::ACKMessage { message_id: 2 })));
    let m = process_client_message(FrillsClientTask::ACKMessageSet { message_ids: vec![2, 3] });
    assert!(matches!(m, FrillsMessage::ClientToServer(FrillsClientToServer::ACKMessageSet { ref message_ids }) if message_ids == &vec![2, 3]));
    let m = process_client_message(FrillsClientTask::NACKMessage { message_id: 4 });
    assert!(matches!(m, FrillsMessage::ClientToServer(FrillsClientToServer::NACKMessage { message_id: 4 })));
    let m = process_client_message(FrillsClientTask::NACKMessageSet { message_ids: vec![5] });
    assert!(matches!(m, FrillsMessage::ClientToServer(FrillsClientToServer::NACKMessageSet { ref message_ids }) if message_ids == &vec![5]));
}

#[test]
fn worker_unpacks_pulled_messages() {
    let batch = process_remote_message(FrillsMessage::ServerToClient(FrillsServerToClient::PulledMessages {
        messages: vec![(vec![1, 2], 7), (vec![3], 8)],
    }))
    .unwrap();
    assert_eq!(batch.len(), 2);
    assert_eq!(batch[0].message, vec![1, 2]);
    assert_eq!(batch[0].message_id, 7);
    assert_eq!(batch[1].message, vec![3]);
    assert_eq!(batch[1].message_id, 8);
    let empty = process_remote_message(FrillsMessage::ServerToClient(FrillsServerToClient::PulledMessages {
        messages: vec![],
    }));
    assert!(empty.unwrap().is_empty());
    assert!(process_remote_message(FrillsMessage::ServerToClient(FrillsServerToClient::Empty)).is_none());
    assert!(process_remote_message(FrillsMessage::ClientToServer(FrillsClientToServer::Disconnect)).is_none());
}

#[test]
fn client_first_request_registers_its_service() {
    let client = client_with_cache(4);
    match client.registration() {
        FrillsClientTask::RegisterService { name } => assert_eq!(name, "Svc"),
        _ => panic!("expected the service registration"),
    }
}

#[test]
fn stream_hands_out_each_received_message_once() {
    let mut client = client_with_cache(2);
    let mut delivered = Vec::new();
    let batches = vec![vec![unacked(1, 1), unacked(2, 2)], vec![unacked(3, 3)], vec![]];
    for batch in batches {
        assert!(matches!(client.begin_poll(false), PollStep::RequestBatch { count: 2 }));
        client.request_sent(true);
        assert!(matches!(client.begin_poll(false), PollStep::AwaitBatch));
        client.batch_received(BatchPoll::Messages(batch));
        while let PollStep::Deliver(m) = client.begin_poll(false) {
            delivered.push(m.message_id);
        }
    }
    delivered.sort();
    assert_eq!(delivered, vec![1, 2, 3]);
}
