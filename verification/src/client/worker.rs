//! The client worker's translation between the tasks it is given and the wire.

use vstd::prelude::*;

use crate::client::client::UnAckedFrillsMessage;
use crate::codec::message::{FrillsClientToServer, FrillsMessage, FrillsServerToClient, pulled_view};

verus! {

/// A task handed from a client handle to the worker that owns the connection.
pub enum FrillsClientTask {
    RegisterService { name: String },
    RegisterTopic { name: String },
    SubscribeToTopic { name: String },
    PushMessages { topic: String, messages: Vec<Vec<u8>> },
    PullMessages { count: u32 },
    ACKMessage { message_id: u32 },
    ACKMessageSet { message_ids: Vec<u32> },
    NACKMessage { message_id: u32 },
    NACKMessageSet { message_ids: Vec<u32> },
}

/// The request that the worker sends to the server for `task`.
pub open spec fn task_request(task: FrillsClientTask) -> FrillsClientToServer {
    match task {
        FrillsClientTask::RegisterService { name } => FrillsClientToServer::RegisterAsService { name },
        FrillsClientTask::RegisterTopic { name } => FrillsClientToServer::RegisterTopic { name },
        FrillsClientTask::SubscribeToTopic { name } => FrillsClientToServer::SubscribeToTopic { topic_name: name },
        FrillsClientTask::PushMessages { topic, messages } => FrillsClientToServer::PushMessages { topic, messages },
        FrillsClientTask::PullMessages { count } => FrillsClientToServer::PullMessages { count },
        FrillsClientTask::ACKMessage { message_id } => FrillsClientToServer::ACKMessage { message_id },
        FrillsClientTask::ACKMessageSet { message_ids } => FrillsClientToServer::ACKMessageSet { message_ids },
        FrillsClientTask::NACKMessage { message_id } => FrillsClientToServer::NACKMessage { message_id },
        FrillsClientTask::NACKMessageSet { message_ids } => FrillsClientToServer::NACKMessageSet { message_ids },
    }
}

/// Each task becomes the request of the same kind with the same contents: a
/// service registration registers as that service, an ACK stays an ACK of the
/// same ids and a NACK a NACK, and so on.
pub proof fn law_tasks_keep_kind_and_contents(task: FrillsClientTask)
    ensures
        task matches FrillsClientTask::RegisterService { name } ==> task_request(task) == (FrillsClientToServer::RegisterAsService { name }),
        task matches FrillsClientTask::RegisterTopic { name } ==> task_request(task) == (FrillsClientToServer::RegisterTopic { name }),
        task matches FrillsClientTask::SubscribeToTopic { name } ==> task_request(task) == (FrillsClientToServer::SubscribeToTopic { topic_name: name }),
        task matches FrillsClientTask::PushMessages { topic, messages } ==> task_request(task) == (FrillsClientToServer::PushMessages { topic, messages }),
        task matches FrillsClientTask::PullMessages { count } ==> task_request(task) == (FrillsClientToServer::PullMessages { count }),
        task matches FrillsClientTask::ACKMessage { message_id } ==> task_request(task) == (FrillsClientToServer::ACKMessage { message_id }),
        task matches FrillsClientTask::ACKMessageSet { message_ids } ==> task_request(task) == (FrillsClientToServer::ACKMessageSet { message_ids }),
        task matches FrillsClientTask::NACKMessage { message_id } ==> task_request(task) == (FrillsClientToServer::NACKMessage { message_id }),
        task matches FrillsClientTask::NACKMessageSet { message_ids } ==> task_request(task) == (FrillsClientToServer::NACKMessageSet { message_ids }),
{
}

/// The message that the worker sends to the server for a task.
pub fn process_client_message(task: FrillsClientTask) -> (m: FrillsMessage)
    ensures
        m == FrillsMessage::ClientToServer(task_request(task)),
{
    let request = match task {
        FrillsClientTask::RegisterService { name } => FrillsClientToServer::RegisterAsService { name },
        FrillsClientTask::RegisterTopic { name } => FrillsClientToServer::RegisterTopic { name },
        FrillsClientTask::SubscribeToTopic { name } => FrillsClientToServer::SubscribeToTopic { topic_name: name },
        FrillsClientTask::PushMessages { topic, messages } => FrillsClientToServer::PushMessages { topic, messages },
        FrillsClientTask::PullMessages { count } => FrillsClientToServer::PullMessages { count },
        FrillsClientTask::ACKMessage { message_id } => FrillsClientToServer::ACKMessage { message_id },
        FrillsClientTask::ACKMessageSet { message_ids } => FrillsClientToServer::ACKMessageSet { message_ids },
        FrillsClientTask::NACKMessage { message_id } => FrillsClientToServer::NACKMessage { message_id },
        FrillsClientTask::NACKMessageSet { message_ids } => FrillsClientToServer::NACKMessageSet { message_ids },
    };
    FrillsMessage::ClientToServer(request)
}

/// The batch that a message from the server hands to the client: the pulled
/// messages in the order the server sent them (possibly none); any other message
/// hands over no batch.
pub fn process_remote_message(message: FrillsMessage) -> (r: Option<Vec<UnAckedFrillsMessage>>)
    ensures
        match message {
            FrillsMessage::ServerToClient(FrillsServerToClient::PulledMessages { messages }) =>
                r matches Some(batch) && batch@.map_values(|m: UnAckedFrillsMessage| m@) == pulled_view(messages@),
            _ => r is None,
        },
{
    match message {
        FrillsMessage::ServerToClient(FrillsServerToClient::PulledMessages { messages }) => {
            let ghost all = messages@;
            let mut source = messages;
            let mut batch: Vec<UnAckedFrillsMessage> = Vec::new();
            let n = source.len();
            let mut i: usize = 0;
            while i < n
                invariant
                    n == all.len(),
                    i <= n,
                    source@ == all.skip(i as int),
                    batch@.map_values(|m: UnAckedFrillsMessage| m@) == pulled_view(all.take(i as int)),
                decreases n - i,
            {
                let (message, message_id) = source.remove(0);
                proof {
                    assert(all.skip(i as int)[0] == all[i as int]);
                    assert(all.skip(i + 1) =~= all.skip(i as int).subrange(1, all.skip(i as int).len() as int));
                }
                let ghost prev = batch@;
                batch.push(UnAckedFrillsMessage { message, message_id });
                proof {
                    assert(all.take(i + 1) =~= all.take(i as int).push(all[i as int]));
                    assert(pulled_view(all.take(i + 1)) =~= pulled_view(all.take(i as int)).push((all[i as int].0@, all[i as int].1)));
                    assert(batch@.map_values(|m: UnAckedFrillsMessage| m@) =~= prev.map_values(|m: UnAckedFrillsMessage| m@).push((all[i as int].0@, all[i as int].1)));
                }
                i = i + 1;
            }
            proof {
                assert(all.take(n as int) =~= all);
            }
            Some(batch)
        },
        _ => None,
    }
}

} // verus!
