//! The polling state of a client's message stream.

use vstd::multiset::Multiset;
use vstd::prelude::*;

use crate::client::config::{Builder, FrillsClientConfig, FrillsClientConfigView, default_config};
use crate::client::worker::FrillsClientTask;

verus! {

/// A message handed to the client, to be acknowledged under `message_id`.
#[derive(Clone)]
pub struct UnAckedFrillsMessage {
    pub message: Vec<u8>,
    pub message_id: u32,
}

impl View for UnAckedFrillsMessage {
    type V = (Seq<u8>, u32);

    open spec fn view(&self) -> (Seq<u8>, u32) {
        (self.message@, self.message_id)
    }
}

/// What a client's stream holds: its service, the messages received and not yet
/// handed out (handed out from the back), whether a pull request is outstanding,
/// and how many messages it asks for at a time.
pub struct FrillsClientView {
    pub service_name: Seq<char>,
    pub queue: Seq<(Seq<u8>, u32)>,
    pub subscribed: bool,
    pub cache_size: u16,
}

/// The polling state of a client's message stream.
pub struct FrillsClient {
    service_name: String,
    message_queue: Vec<UnAckedFrillsMessage>,
    subscribed: bool,
    cache_size: u16,
}

impl View for FrillsClient {
    type V = FrillsClientView;

    closed spec fn view(&self) -> FrillsClientView {
        FrillsClientView {
            service_name: self.service_name@,
            queue: self.message_queue@.map_values(|m: UnAckedFrillsMessage| m@),
            subscribed: self.subscribed,
            cache_size: self.cache_size,
        }
    }
}

/// What one poll of the stream does.
pub enum PollStep {
    /// Hand out this message.
    Deliver(UnAckedFrillsMessage),
    /// The worker is gone: the stream has ended.
    EndOfStream,
    /// Ask the worker for up to `count` messages, then report whether the request
    /// was accepted.
    RequestBatch { count: u32 },
    /// Wait for the outstanding batch, then report what arrived.
    AwaitBatch,
}

/// What a poll hands out or asks for.
pub enum PollView {
    Deliver((Seq<u8>, u32)),
    EndOfStream,
    RequestBatch(u32),
    AwaitBatch,
}

impl View for PollStep {
    type V = PollView;

    open spec fn view(&self) -> PollView {
        match self {
            PollStep::Deliver(m) => PollView::Deliver(m@),
            PollStep::EndOfStream => PollView::EndOfStream,
            PollStep::RequestBatch { count } => PollView::RequestBatch(*count),
            PollStep::AwaitBatch => PollView::AwaitBatch,
        }
    }
}

/// What the worker's channel yielded when the stream waited on it.
pub enum BatchPoll {
    /// A batch of messages.
    Messages(Vec<UnAckedFrillsMessage>),
    /// The channel is closed.
    Closed,
    /// Nothing yet.
    Pending,
}

/// One poll of the stream in state `s`, where `channel_closed` tells whether the
/// worker has gone: a cached message is handed out from the back of the queue;
/// with nothing cached and no request outstanding, a batch of `cache_size` is
/// requested (or the stream ends if the worker is gone); otherwise the poll waits
/// for the outstanding batch.
pub open spec fn spec_begin_poll(s: FrillsClientView, channel_closed: bool) -> (FrillsClientView, PollView) {
    if s.queue.len() > 0 {
        (FrillsClientView { queue: s.queue.drop_last(), ..s }, PollView::Deliver(s.queue.last()))
    } else if !s.subscribed {
        if channel_closed {
            (s, PollView::EndOfStream)
        } else {
            (s, PollView::RequestBatch(s.cache_size as u32))
        }
    } else {
        (s, PollView::AwaitBatch)
    }
}

/// What the worker's channel yielded, as values.
pub enum BatchView {
    Messages(Seq<(Seq<u8>, u32)>),
    Closed,
    Pending,
}

impl View for BatchPoll {
    type V = BatchView;

    open spec fn view(&self) -> BatchView {
        match self {
            BatchPoll::Messages(messages) => BatchView::Messages(messages@.map_values(|m: UnAckedFrillsMessage| m@)),
            BatchPoll::Closed => BatchView::Closed,
            BatchPoll::Pending => BatchView::Pending,
        }
    }
}

/// The state after the worker's channel yielded `batch` while a request was
/// outstanding: a batch is appended to the cache, and a batch or a closed channel
/// ends the wait.
pub open spec fn spec_batch_received(s: FrillsClientView, batch: BatchView) -> FrillsClientView {
    match batch {
        BatchView::Messages(messages) => FrillsClientView { queue: s.queue + messages, subscribed: false, ..s },
        BatchView::Closed => FrillsClientView { subscribed: false, ..s },
        BatchView::Pending => s,
    }
}

/// One thing that happens to a client's stream: a poll (with the worker's channel
/// open or closed), the outcome of a batch request, or what the channel yielded.
pub enum StreamEvent {
    Poll { channel_closed: bool },
    RequestSent { sent: bool },
    Received { batch: BatchView },
}

/// The state after `events` from state `s`, with the messages handed out by the
/// polls and the messages received in batches, each in order.
pub open spec fn run_stream(s: FrillsClientView, events: Seq<StreamEvent>) -> (FrillsClientView, Seq<(Seq<u8>, u32)>, Seq<(Seq<u8>, u32)>)
    decreases events.len(),
{
    if events.len() == 0 {
        (s, Seq::empty(), Seq::empty())
    } else {
        let (mid, delivered, received) = run_stream(s, events.drop_last());
        match events.last() {
            StreamEvent::Poll { channel_closed } => {
                let (next, step) = spec_begin_poll(mid, channel_closed);
                match step {
                    PollView::Deliver(m) => (next, delivered.push(m), received),
                    _ => (next, delivered, received),
                }
            },
            StreamEvent::RequestSent { sent } => (spec_request_sent(mid, sent), delivered, received),
            StreamEvent::Received { batch } => match batch {
                BatchView::Messages(messages) => (spec_batch_received(mid, batch), delivered, received + messages),
                _ => (spec_batch_received(mid, batch), delivered, received),
            },
        }
    }
}

/// Over any run of a client's stream, no message is lost or handed out twice:
/// the messages handed out together with those still cached are, as multisets,
/// those cached at the start together with every batch received.
pub proof fn law_stream_hands_out_each_message_once(s: FrillsClientView, events: Seq<StreamEvent>)
    ensures
        run_stream(s, events).1.to_multiset().add(run_stream(s, events).0.queue.to_multiset())
            == s.queue.to_multiset().add(run_stream(s, events).2.to_multiset()),
    decreases events.len(),
{
    broadcast use vstd::seq_lib::group_to_multiset_ensures, vstd::multiset::group_multiset_axioms;
    if events.len() == 0 {
        assert(Seq::<(Seq<u8>, u32)>::empty().to_multiset() =~= Multiset::empty());
        assert(Multiset::<(Seq<u8>, u32)>::empty().add(s.queue.to_multiset()) =~= s.queue.to_multiset().add(Multiset::empty()));
    } else {
        law_stream_hands_out_each_message_once(s, events.drop_last());
        let (mid, delivered, received) = run_stream(s, events.drop_last());
        match events.last() {
            StreamEvent::Poll { channel_closed } => {
                if mid.queue.len() > 0 {
                    let m = mid.queue.last();
                    assert(mid.queue =~= mid.queue.drop_last().push(m));
                    assert(mid.queue.to_multiset() =~= mid.queue.drop_last().to_multiset().insert(m));
                    assert(delivered.push(m).to_multiset() =~= delivered.to_multiset().insert(m));
                    assert(delivered.push(m).to_multiset().add(mid.queue.drop_last().to_multiset())
                        =~= delivered.to_multiset().add(mid.queue.to_multiset()));
                }
            },
            StreamEvent::RequestSent { sent } => {},
            StreamEvent::Received { batch } => match batch {
                BatchView::Messages(messages) => {
                    vstd::seq_lib::lemma_multiset_commutative(mid.queue, messages);
                    vstd::seq_lib::lemma_multiset_commutative(received, messages);
                    let lhs = delivered.to_multiset().add(mid.queue.to_multiset().add(messages.to_multiset()));
                    let rhs = s.queue.to_multiset().add(received.to_multiset().add(messages.to_multiset()));
                    assert forall|x: (Seq<u8>, u32)| lhs.count(x) == rhs.count(x) by {
                        assert(delivered.to_multiset().add(mid.queue.to_multiset()).count(x)
                            == s.queue.to_multiset().add(received.to_multiset()).count(x));
                    }
                    assert(delivered.to_multiset().add(mid.queue.to_multiset().add(messages.to_multiset()))
                        =~= s.queue.to_multiset().add(received.to_multiset().add(messages.to_multiset())));
                },
                _ => {},
            },
        }
    }
}

/// A poll hands out the most recently received cached message, if any, and
/// otherwise never touches the cache: with nothing cached it waits while a
/// request is outstanding, ends the stream where the worker is gone, and else
/// asks for exactly `cache_size` messages. Nothing but the cache changes.
pub proof fn law_poll_step(s: FrillsClientView, channel_closed: bool)
    ensures
        spec_begin_poll(s, channel_closed).0.service_name == s.service_name,
        spec_begin_poll(s, channel_closed).0.cache_size == s.cache_size,
        spec_begin_poll(s, channel_closed).0.subscribed == s.subscribed,
        s.queue.len() > 0 ==> spec_begin_poll(s, channel_closed).1 == PollView::Deliver(s.queue[s.queue.len() - 1])
            && spec_begin_poll(s, channel_closed).0.queue == s.queue.take(s.queue.len() - 1),
        s.queue.len() == 0 ==> spec_begin_poll(s, channel_closed).0.queue == s.queue
            && spec_begin_poll(s, channel_closed).1 == if s.subscribed {
                PollView::AwaitBatch
            } else if channel_closed {
                PollView::EndOfStream
            } else {
                PollView::RequestBatch(s.cache_size as u32)
            },
{
}

/// An accepted request leaves a request outstanding; a refused one changes
/// nothing, so the next poll asks again.
pub proof fn law_request_outcome(s: FrillsClientView)
    ensures
        spec_request_sent(s, true) == (FrillsClientView { subscribed: true, ..s }),
        spec_request_sent(s, false) == s,
{
}

/// Any batch that arrives, empty or not, ends the wait and is appended to the
/// cache in order; a closed channel ends the wait too; nothing arriving changes
/// nothing. So once a batch has arrived and been handed out, the next poll asks
/// the worker again.
pub proof fn law_batch_ends_wait(s: FrillsClientView, messages: Seq<(Seq<u8>, u32)>, channel_closed: bool)
    ensures
        !spec_batch_received(s, BatchView::Messages(messages)).subscribed,
        spec_batch_received(s, BatchView::Messages(messages)).queue == s.queue + messages,
        spec_batch_received(s, BatchView::Messages(messages)).service_name == s.service_name,
        spec_batch_received(s, BatchView::Messages(messages)).cache_size == s.cache_size,
        !spec_batch_received(s, BatchView::Closed).subscribed,
        spec_batch_received(s, BatchView::Closed).queue == s.queue,
        spec_batch_received(s, BatchView::Closed).service_name == s.service_name,
        spec_batch_received(s, BatchView::Closed).cache_size == s.cache_size,
        spec_batch_received(s, BatchView::Pending) == s,
        s.queue.len() == 0 && !channel_closed ==> spec_begin_poll(
            spec_batch_received(s, BatchView::Messages(Seq::empty())),
            channel_closed,
        ).1 == PollView::RequestBatch(s.cache_size as u32),
{
    assert(s.queue + Seq::<(Seq<u8>, u32)>::empty() =~= s.queue);
}

/// The state after a batch request was or was not accepted by the worker.
pub open spec fn spec_request_sent(s: FrillsClientView, sent: bool) -> FrillsClientView {
    if sent { FrillsClientView { subscribed: true, ..s } } else { s }
}

/// The state and the steps after `n` polls from state `s`, with the worker's
/// channel open or closed throughout as `channel_closed` says.
pub open spec fn polls(s: FrillsClientView, n: nat, channel_closed: bool) -> (FrillsClientView, Seq<PollView>)
    decreases n,
{
    if n == 0 {
        (s, Seq::empty())
    } else {
        let (next, step) = spec_begin_poll(s, channel_closed);
        let (last, steps) = polls(next, (n - 1) as nat, channel_closed);
        (last, seq![step] + steps)
    }
}

/// Cached messages are handed out before anything else: as many polls as there
/// are cached messages hand them all out, the most recently received first,
/// without a request to the worker and whether or not the worker is still there.
pub proof fn law_cached_messages_delivered_last_first(s: FrillsClientView, channel_closed: bool)
    ensures
        polls(s, s.queue.len(), channel_closed).1
            == s.queue.reverse().map_values(|m: (Seq<u8>, u32)| PollView::Deliver(m)),
        polls(s, s.queue.len(), channel_closed).0 == (FrillsClientView { queue: Seq::empty(), ..s }),
    decreases s.queue.len(),
{
    if s.queue.len() == 0 {
        assert(s.queue.reverse() =~= Seq::<(Seq<u8>, u32)>::empty());
        assert(s.queue =~= Seq::<(Seq<u8>, u32)>::empty());
    } else {
        let (next, step) = spec_begin_poll(s, channel_closed);
        law_cached_messages_delivered_last_first(next, channel_closed);
        assert(next.queue.reverse() =~= s.queue.reverse().drop_first());
        let f = |m: (Seq<u8>, u32)| PollView::Deliver(m);
        assert(seq![step] + next.queue.reverse().map_values(f) =~= s.queue.reverse().map_values(f));
        assert(next.queue.len() == s.queue.len() - 1);
    }
}

/// With nothing cached and no request outstanding, a poll asks the worker for a
/// batch of `cache_size` messages, or ends the stream where the worker is gone;
/// once the request is accepted, polls wait for the batch.
pub proof fn law_empty_cache_requests_batch(s: FrillsClientView, channel_closed: bool)
    requires
        s.queue.len() == 0,
        !s.subscribed,
    ensures
        spec_begin_poll(s, channel_closed).1 == if channel_closed {
            PollView::EndOfStream
        } else {
            PollView::RequestBatch(s.cache_size as u32)
        },
        spec_begin_poll(spec_request_sent(s, true), channel_closed).1 == PollView::AwaitBatch,
{
}

impl FrillsClient {
    /// A builder with the default settings for the service `service_name`.
    pub fn builder(service_name: &str) -> (b: Builder)
        ensures
            b@ == (FrillsClientConfigView { service_name: service_name@, ..default_config() }),
    {
        Builder::new(service_name)
    }

    /// The stream of a client connected with `config`: nothing cached and no
    /// request outstanding.
    pub fn new(config: &FrillsClientConfig) -> (c: FrillsClient)
        ensures
            c@ == (FrillsClientView {
                service_name: config@.service_name,
                queue: Seq::empty(),
                subscribed: false,
                cache_size: config@.cache_size,
            }),
    {
        let c = FrillsClient {
            service_name: config.service_name().clone(),
            message_queue: Vec::new(),
            subscribed: false,
            cache_size: config.cache_size(),
        };
        assert(c@.queue =~= Seq::<(Seq<u8>, u32)>::empty());
        c
    }

    /// The first request a connected client sends: registering as its service.
    pub fn registration(&self) -> (t: FrillsClientTask)
        ensures
            t matches FrillsClientTask::RegisterService { name } && name@ == self@.service_name,
    {
        FrillsClientTask::RegisterService { name: self.service_name.clone() }
    }

    /// The service the client registered as.
    pub fn get_service_name(&self) -> (r: String)
        ensures
            r@ == self@.service_name,
    {
        self.service_name.clone()
    }

    /// Starts one poll of the stream; `channel_closed` tells whether the worker
    /// has gone.
    pub fn begin_poll(&mut self, channel_closed: bool) -> (step: PollStep)
        ensures
            (final(self)@, step@) == spec_begin_poll(old(self)@, channel_closed),
    {
        if self.message_queue.len() > 0 {
            let ghost q = self.message_queue@;
            let m = self.message_queue.pop();
            match m {
                Some(m) => {
                    proof {
                        assert(self.message_queue@.map_values(|m: UnAckedFrillsMessage| m@) =~= q.map_values(|m: UnAckedFrillsMessage| m@).drop_last());
                    }
                    PollStep::Deliver(m)
                },
                None => PollStep::AwaitBatch,
            }
        } else if !self.subscribed {
            if channel_closed {
                PollStep::EndOfStream
            } else {
                PollStep::RequestBatch { count: self.cache_size as u32 }
            }
        } else {
            PollStep::AwaitBatch
        }
    }

    /// Records whether the worker accepted the batch request; returns whether the
    /// stream should be polled again at once.
    pub fn request_sent(&mut self, sent: bool) -> (wake: bool)
        ensures
            final(self)@ == spec_request_sent(old(self)@, sent),
            wake == sent,
    {
        if sent {
            self.subscribed = true;
        }
        sent
    }

    /// Records what the worker's channel yielded while a request was outstanding;
    /// returns whether the stream should be polled again at once. A batch is
    /// appended to the cache; a batch or a closed channel ends the wait.
    pub fn batch_received(&mut self, batch: BatchPoll) -> (wake: bool)
        ensures
            final(self)@ == spec_batch_received(old(self)@, batch@),
            wake == !(batch is Pending),
    {
        match batch {
            BatchPoll::Messages(messages) => {
                let ghost q = self.message_queue@;
                let ghost add = messages@;
                let mut messages = messages;
                self.message_queue.append(&mut messages);
                self.subscribed = false;
                proof {
                    assert(self.message_queue@.map_values(|m: UnAckedFrillsMessage| m@) =~= q.map_values(|m: UnAckedFrillsMessage| m@) + add.map_values(|m: UnAckedFrillsMessage| m@));
                }
                true
            },
            BatchPoll::Closed => {
                self.subscribed = false;
                true
            },
            BatchPoll::Pending => false,
        }
    }
}

} // verus!
