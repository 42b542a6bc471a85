use frills::codec::message::{FrillsClientToServer, FrillsMessage, FrillsServerToClient};
use frills::server::client_thread::{ClientThread, ClientThreadAction};
use frills::server::message::{ClientToMasterMessage, NewMessage, NewMessages};
use tokio::sync::mpsc::{channel, Sender};

fn reply_to() -> Sender<NewMessages> {
    let (tx, _rx) = channel(4);
    tx
}

fn request(r: FrillsClientToServer) -> FrillsMessage {
    FrillsMessage::ClientToServer(r)
}

fn registered(name: &str) -> ClientThread {
    let mut thread = ClientThread::new();
    thread.process_tcp(request(FrillsClientToServer::RegisterAsService { name: name.to_string() }), reply_to());
    thread
}

#[test]
fn session_registers_service_once() {
    let mut thread = ClientThread::new();
    match thread.process_tcp(request(FrillsClientToServer::RegisterAsService { name: "A".to_string() }), reply_to()) {
        ClientThreadAction::ToMaster(ClientToMasterMessage::RegisterService { name }) => assert_eq!(name, "A"),
        _ => panic!("expected a registration"),
    }
    match thread.process_tcp(request(FrillsClientToServer::RegisterAsService { name: "B".to_string() }), reply_to()) {
        ClientThreadAction::Nothing => {},
        _ => panic!("a second registration is dropped"),
    }
    match thread.process_tcp(request(FrillsClientToServer::PullMessages { count: 3 }), reply_to()) {
        ClientThreadAction::ToMaster(ClientToMasterMessage::PullMessages { service, count, .. }) => {
            assert_eq!(service, "A");
            assert_eq!(count, 3);
        },
        _ => panic!("expected a pull"),
    }
}

#[test]
fn session_drops_service_requests_before_registration() {
    let mut thread = ClientThread::new();
    let requests = vec![
        FrillsClientToServer::SubscribeToTopic { topic_name: "T".to_string() },
        FrillsClientToServer::PullMessages { count: 1 },
        FrillsClientToServer::ACKMessage { message_id: 1 },
        FrillsClientToServer::ACKMessageSet { message_ids: vec![1, 2] },
        FrillsClientToServer::NACKMessage { message_id: 1 },
        FrillsClientToServer::NACKMessageSet { message_ids: vec![3] },
    ];
    for r in requests {
        assert!(matches!(thread.process_tcp(request(r), reply_to()), ClientThreadAction::Nothing));
    }
}

#[test]
fn session_forwards_requests_of_registered_service() {
    let mut thread = registered("Svc");
    match thread.process_tcp(request(FrillsClientToServer::SubscribeToTopic { topic_name: "T".to_string() }), reply_to()) {
        ClientThreadAction::ToMaster(ClientToMasterMessage::SubscribeServiceToTopic { service, topic }) => {
            assert_eq!(service, "Svc");
            assert_eq!(topic, "T");
        },
        _ => panic!("expected a subscription"),
    }
    match thread.process_tcp(request(FrillsClientToServer::ACKMessage { message_id: 5 }), reply_to()) {
        ClientThreadAction::ToMaster(ClientToMasterMessage::ACK { message_ids, service }) => {
            assert_eq!(message_ids, vec![5]);
            assert_eq!(service, "Svc");
        },
        _ => panic!("expected an ACK"),
    }
    match thread.process_tcp(request(FrillsClientToServer::NACKMessageSet { message_ids: vec![1, 2] }), reply_to()) {
        ClientThreadAction::ToMaster(ClientToMasterMessage::NACK { message_ids, service }) => {
            assert_eq!(message_ids, vec![1, 2]);
            assert_eq!(service, "Svc");
        },
        _ => panic!("expected a NACK"),
    }
    match thread.process_tcp(request(FrillsClientToServer::NACKMessage { message_id: 9 }), reply_to()) {
        ClientThreadAction::ToMaster(ClientToMasterMessage::NACK { message_ids, .. }) => assert_eq!(message_ids, vec![9]),
        _ => panic!("expected a NACK"),
    }
    match thread.process_tcp(request(FrillsClientToServer::ACKMessageSet { message_ids: vec![4] }), reply_to()) {
        ClientThreadAction::ToMaster(ClientToMasterMessage::ACK { message_ids, .. }) => assert_eq!(message_ids, vec![4]),
        _ => panic!("expected an ACK"),
    }
}

#[test]
fn session_forwards_without_service() {
    let mut thread = ClientThread::new();
    match thread.process_tcp(request(FrillsClientToServer::RegisterTopic { name: "T".to_string() }), reply_to()) {
        ClientThreadAction::ToMaster(ClientToMasterMessage::RegisterTopic { name }) => assert_eq!(name, "T"),
        _ => panic!("expected a topic registration"),
    }
    match thread.process_tcp(
        request(FrillsClientToServer::PushMessages { topic: "T".to_string(), messages: vec![vec![1, 2]] }),
        reply_to(),
    ) {
        ClientThreadAction::ToMaster(ClientToMasterMessage::PushMessages { topic, messages }) => {
            assert_eq!(topic, "T");
            assert_eq!(messages, vec![vec![1, 2]]);
        },
        _ => panic!("expected a push"),
    }
    assert!(matches!(
        thread.process_tcp(request(FrillsClientToServer::Shutdown), reply_to()),
        ClientThreadAction::ToMaster(ClientToMasterMessage::Shutdown)
    ));
    assert!(matches!(thread.perform_master_shutdown(), ClientToMasterMessage::Shutdown));
}

#[test]
fn session_disconnect_and_unexpected() {
    let mut thread = registered("S");
    assert!(!thread.is_shutdown());
    assert!(matches!(
        thread.process_tcp(FrillsMessage::ServerToClient(FrillsServerToClient::Empty), reply_to()),
        ClientThreadAction::Unexpected
    ));
    assert!(!thread.is_shutdown());
    assert!(matches!(thread.process_tcp(request(FrillsClientToServer::Disconnect), reply_to()), ClientThreadAction::Nothing));
    assert!(thread.is_shutdown());
    // still registered as the same service afterwards
    match thread.process_tcp(request(FrillsClientToServer::PullMessages { count: 1 }), reply_to()) {
        ClientThreadAction::ToMaster(ClientToMasterMessage::PullMessages { service, .. }) => assert_eq!(service, "S"),
        _ => panic!("expected a pull"),
    }
}

#[test]
fn session_returns_pulled_messages_in_order() {
    let thread = ClientThread::new();
    let batch = NewMessages {
        messages: vec![
            NewMessage { message_id: 4, message: vec![10] },
            NewMessage { message_id: 2, message: vec![20, 21] },
        ],
    };
    match thread.return_message_to_client(batch) {
        FrillsMessage::ServerToClient(FrillsServerToClient::PulledMessages { messages }) => {
            assert_eq!(messages, vec![(vec![10], 4), (vec![20, 21], 2)]);
        },
        _ => panic!("expected pulled messages"),
    }
}
