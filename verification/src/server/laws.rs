//! What holds of the broker across requests.

use vstd::prelude::*;

use crate::server::message::{ClientToMasterMessage, NewMessages, PendingReply};
use tokio::sync::mpsc::Sender;
use crate::server::server::{
    ServerView, handled, request_ok, spec_push, spec_register_service, spec_register_topic, spec_subscribe,
};
use crate::server::service::payloads;
use crate::server::service::{
    ServiceView, ack_ids_ok, lemma_insert_all_index, lemma_insert_all_remove,
    live_keys, pull_count, pulled, pulled_with, spec_ack, spec_enqueue,
};

verus! {

/// Some id in `ids`, read back as a key, is `k`.
pub open spec fn named(ids: Seq<u32>, k: usize) -> bool {
    exists|i: int| 0 <= i < ids.len() && ids[i] as usize == k
}

proof fn lemma_live_keys_contains(m: Map<usize, Seq<u8>>, ids: Seq<u32>, k: usize)
    ensures
        live_keys(m, ids).contains(k) <==> m.dom().contains(k) && named(ids, k),
    decreases ids.len(),
{
    if ids.len() > 0 {
        let rest = ids.drop_last();
        lemma_live_keys_contains(m, rest, k);
        let prev = live_keys(m, rest);
        let key = ids.last() as usize;
        if m.dom().contains(key) {
            assert(live_keys(m, ids) == prev.push(key));
            if prev.contains(k) {
                let j = choose|j: int| 0 <= j < prev.len() && prev[j] == k;
                assert(prev.push(key)[j] == k);
            }
            if prev.push(key).contains(k) && k != key {
                let j = choose|j: int| 0 <= j < prev.push(key).len() && prev.push(key)[j] == k;
                assert(prev[j] == k);
            }
            if k == key {
                assert(prev.push(key)[prev.len() as int] == k);
            }
        }
        if named(ids, k) && !named(rest, k) {
            let i = choose|i: int| 0 <= i < ids.len() && ids[i] as usize == k;
            if i < ids.len() - 1 {
                assert(rest[i] == ids[i]);
            }
        }
        if named(rest, k) {
            let i = choose|i: int| 0 <= i < rest.len() && rest[i] as usize == k;
            assert(ids[i] == rest[i]);
        }
    }
}

/// Registering a topic that is already registered changes nothing, so its
/// subscribers are kept; registering a new one adds it with no subscribers and
/// touches no service. No reply is owed.
pub proof fn law_register_topic(old: ServerView, new: ServerView, name: String, reply: Option<PendingReply>)
    requires
        handled(old, new, ClientToMasterMessage::RegisterTopic { name }, reply),
    ensures
        reply is None,
        new.services == old.services,
        new.shutdown == old.shutdown,
        old.topics.dom().contains(name@) ==> new == old,
        !old.topics.dom().contains(name@) ==> new.topics == old.topics.insert(name@, Set::<Seq<char>>::empty()),
        forall|t: Seq<char>| #[trigger] old.topics.dom().contains(t) ==> new.topics.dom().contains(t) && new.topics[t] == old.topics[t],
{
}

/// Registering a service that is already registered changes nothing, so its
/// queue and in-flight messages are kept; registering a new one adds it with no
/// clients, nothing queued and nothing in flight, and touches no topic.
pub proof fn law_register_service(old: ServerView, new: ServerView, name: String, reply: Option<PendingReply>)
    requires
        handled(old, new, ClientToMasterMessage::RegisterService { name }, reply),
    ensures
        reply is None,
        new.topics == old.topics,
        new.shutdown == old.shutdown,
        old.services.dom().contains(name@) ==> new == old,
        !old.services.dom().contains(name@) ==> new.services.dom() == old.services.dom().insert(name@)
            && new.services[name@].queue.len() == 0
            && new.services[name@].in_flight.dom().len() == 0
            && new.services[name@].clients.len() == 0
            && new.services[name@].slots == 0,
        forall|n: Seq<char>| #[trigger] old.services.dom().contains(n) ==> new.services[n] == old.services[n],
{
    if !old.services.dom().contains(name@) {
        assert(new.services[name@].in_flight.dom() =~= Set::<usize>::empty());
    }
}

/// Subscribing never changes a service: the topic's subscribers gain the service
/// where both are registered, and nothing else changes.
pub proof fn law_subscribe_changes_only_the_topic(
    old: ServerView,
    new: ServerView,
    service: String,
    topic: String,
    reply: Option<PendingReply>,
)
    requires
        handled(old, new, ClientToMasterMessage::SubscribeServiceToTopic { service, topic }, reply),
    ensures
        reply is None,
        new.services == old.services,
        new.shutdown == old.shutdown,
        new.topics.dom() == old.topics.dom(),
        forall|t: Seq<char>| #[trigger] old.topics.dom().contains(t) && t != topic@ ==> new.topics[t] == old.topics[t],
        old.topics.dom().contains(topic@) ==> new.topics[topic@] == if old.services.dom().contains(service@) {
            old.topics[topic@].insert(service@)
        } else {
            old.topics[topic@]
        },
{
    assert(new.topics.dom() =~= old.topics.dom());
}

/// A push appends the messages, in order, to the queue of every registered
/// service subscribed to the topic, and changes nothing else: no other service,
/// no topic, nothing in flight.
pub proof fn law_push_appends_to_subscribers(
    old: ServerView,
    new: ServerView,
    topic: String,
    messages: Vec<Vec<u8>>,
    reply: Option<PendingReply>,
)
    requires
        handled(old, new, ClientToMasterMessage::PushMessages { topic, messages }, reply),
    ensures
        reply is None,
        new.topics == old.topics,
        new.shutdown == old.shutdown,
        new.services.dom() == old.services.dom(),
        forall|n: Seq<char>| #[trigger] old.services.dom().contains(n) ==> {
            &&& new.services[n].clients == old.services[n].clients
            &&& new.services[n].in_flight == old.services[n].in_flight
            &&& new.services[n].slots == old.services[n].slots
            &&& new.services[n].queue == if old.topics.dom().contains(topic@) && old.topics[topic@].contains(n) {
                old.services[n].queue + payloads(messages@)
            } else {
                old.services[n].queue
            }
        },
{
    assert(new.services.dom() =~= old.services.dom());
}

/// An ACK by a service drops the in-flight messages its ids name and keeps the
/// rest in flight; its queue and every other service and topic stay as they were.
pub proof fn law_ack_drops_named_messages(
    old: ServerView,
    new: ServerView,
    message_ids: Vec<u32>,
    service: String,
    reply: Option<PendingReply>,
)
    requires
        handled(old, new, ClientToMasterMessage::ACK { message_ids, service }, reply),
    ensures
        reply is None,
        new.topics == old.topics,
        new.shutdown == old.shutdown,
        new.services.dom() == old.services.dom(),
        forall|n: Seq<char>| #[trigger] old.services.dom().contains(n) && n != service@ ==> new.services[n] == old.services[n],
        old.services.dom().contains(service@) ==> {
            let before = old.services[service@];
            let after = new.services[service@];
            &&& after.queue == before.queue
            &&& after.clients == before.clients
            &&& forall|k: usize| #[trigger] after.in_flight.dom().contains(k)
                <==> before.in_flight.dom().contains(k) && !named(message_ids@, k)
            &&& forall|k: usize| #[trigger] after.in_flight.dom().contains(k) ==> after.in_flight[k] == before.in_flight[k]
        },
{
    assert(new.services.dom() =~= old.services.dom());
    if old.services.dom().contains(service@) {
        let before = old.services[service@];
        assert forall|k: usize| #[trigger] new.services[service@].in_flight.dom().contains(k)
            <==> before.in_flight.dom().contains(k) && !named(message_ids@, k) by {
            lemma_live_keys_contains(before.in_flight, message_ids@, k);
        }
    }
}

/// What a NACK of `ids` does to a service: the in-flight messages the ids name
/// leave flight and their payloads are appended behind everything queued before,
/// each named message's payload among them and nothing else; the rest stays in
/// flight as it was.
pub open spec fn nack_requeued(before: ServiceView, after: ServiceView, ids: Seq<u32>) -> bool {
    &&& after.clients == before.clients
    &&& after.queue.len() >= before.queue.len()
    &&& after.queue.take(before.queue.len() as int) == before.queue
    &&& forall|k: usize| #[trigger] after.in_flight.dom().contains(k)
        <==> before.in_flight.dom().contains(k) && !named(ids, k)
    &&& forall|k: usize| #[trigger] after.in_flight.dom().contains(k) ==> after.in_flight[k] == before.in_flight[k]
    &&& forall|k: usize| before.in_flight.dom().contains(k) && #[trigger] named(ids, k)
        ==> after.queue.skip(before.queue.len() as int).contains(before.in_flight[k])
    &&& forall|j: int| before.queue.len() <= j < after.queue.len() ==> #[trigger] was_named_in_flight(before, ids, after.queue[j])
}

/// `payload` was in flight in `s` under a key that `ids` name.
pub open spec fn was_named_in_flight(s: ServiceView, ids: Seq<u32>, payload: Seq<u8>) -> bool {
    exists|k: usize| s.in_flight.dom().contains(k) && named(ids, k) && s.in_flight[k] == payload
}

/// A NACK by a service takes the in-flight messages its ids name out of flight
/// and appends their payloads to the back of its queue, behind everything queued
/// before; the rest stays in flight, and every other service and topic stays as
/// it was.
pub proof fn law_nack_requeues_named_messages(
    old: ServerView,
    new: ServerView,
    message_ids: Vec<u32>,
    service: String,
    reply: Option<PendingReply>,
)
    requires
        handled(old, new, ClientToMasterMessage::NACK { message_ids, service }, reply),
    ensures
        reply is None,
        new.topics == old.topics,
        new.shutdown == old.shutdown,
        new.services.dom() == old.services.dom(),
        forall|n: Seq<char>| #[trigger] old.services.dom().contains(n) && n != service@ ==> new.services[n] == old.services[n],
        old.services.dom().contains(service@) ==> nack_requeued(old.services[service@], new.services[service@], message_ids@),
{
    assert(new.services.dom() =~= old.services.dom());
    if old.services.dom().contains(service@) {
        let before = old.services[service@];
        let after = new.services[service@];
        let valid = live_keys(before.in_flight, message_ids@);
        let added = valid.map_values(|k: usize| before.in_flight[k]);
        assert(after.queue == before.queue + added);
        assert(after.queue.take(before.queue.len() as int) =~= before.queue);
        assert(after.queue.skip(before.queue.len() as int) =~= added);
        assert forall|k: usize| #[trigger] after.in_flight.dom().contains(k)
            <==> before.in_flight.dom().contains(k) && !named(message_ids@, k) by {
            lemma_live_keys_contains(before.in_flight, message_ids@, k);
        }
        assert forall|k: usize| before.in_flight.dom().contains(k) && #[trigger] named(message_ids@, k)
            implies after.queue.skip(before.queue.len() as int).contains(before.in_flight[k]) by {
            lemma_live_keys_contains(before.in_flight, message_ids@, k);
            let t = choose|t: int| 0 <= t < valid.len() && valid[t] == k;
            assert(added[t] == before.in_flight[k]);
        }
        assert forall|j: int| before.queue.len() <= j < after.queue.len() implies #[trigger] was_named_in_flight(before, message_ids@, after.queue[j]) by {
            let t = j - before.queue.len();
            let k = valid[t];
            assert(valid.contains(k));
            lemma_live_keys_contains(before.in_flight, message_ids@, k);
            assert(after.queue[j] == added[t]);
        }
        assert(nack_requeued(before, after, message_ids@));
    }
}

/// A shutdown request sets the shutdown flag and changes nothing else; a
/// disconnect changes nothing at the broker.
pub proof fn law_shutdown_and_disconnect(old: ServerView, new: ServerView, other: ServerView, r1: Option<PendingReply>, r2: Option<PendingReply>)
    requires
        handled(old, new, ClientToMasterMessage::Shutdown, r1),
        handled(old, other, ClientToMasterMessage::Disconnect, r2),
    ensures
        r1 is None && r2 is None,
        new.shutdown,
        new.services == old.services,
        new.topics == old.topics,
        other == old,
{
}

/// A pull by a registered service answers the requesting client with the
/// messages at the front of that service's queue, oldest first, up to `count`
/// (fewer only where the queue is shorter); they leave the queue, and no other
/// service and no topic changes. A pull by an unregistered service gets no
/// answer and changes nothing.
pub proof fn law_pull_answers_requester(
    old: ServerView,
    new: ServerView,
    service: String,
    client: Sender<NewMessages>,
    count: u32,
    reply: Option<PendingReply>,
)
    requires
        handled(old, new, ClientToMasterMessage::PullMessages { service, client, count }, reply),
    ensures
        !old.services.dom().contains(service@) ==> reply is None && new == old,
        old.services.dom().contains(service@) ==> {
            &&& reply is Some
            &&& reply->0.client == client
            &&& reply->0.messages@.len() == if count as nat <= old.services[service@].queue.len() {
                count as nat
            } else {
                old.services[service@].queue.len()
            }
            &&& old.services[service@].queue == batch_payloads(reply->0.messages@) + new.services[service@].queue
            &&& new.topics == old.topics
            &&& new.shutdown == old.shutdown
            &&& new.services.dom() == old.services.dom()
            &&& forall|n: Seq<char>| #[trigger] old.services.dom().contains(n) && n != service@ ==> new.services[n] == old.services[n]
        },
{
    if old.services.dom().contains(service@) {
        let out = reply->0.messages@;
        law_pull_takes_front(old.services[service@], new.services[service@], count, out);
        assert(new.services.dom() =~= old.services.dom());
    }
}

/// The ids of a batch of handed-out messages, in order.
pub open spec fn batch_ids(out: Seq<(u32, Seq<u8>)>) -> Seq<u32> {
    out.map_values(|p: (u32, Seq<u8>)| p.0)
}

/// The payloads of a batch of handed-out messages, in order.
pub open spec fn batch_payloads(out: Seq<(u32, Seq<u8>)>) -> Seq<Seq<u8>> {
    out.map_values(|p: (u32, Seq<u8>)| p.1)
}

/// The handed-out message `m` is in flight under its id, read back as a key, with
/// its payload.
pub open spec fn names_message(in_flight: Map<usize, Seq<u8>>, m: (u32, Seq<u8>)) -> bool {
    in_flight.dom().contains(m.0 as usize) && in_flight[m.0 as usize] == m.1
}

/// Every subscriber of every topic is a registered service.
pub open spec fn subscribers_registered(s: ServerView) -> bool {
    forall|t: Seq<char>, n: Seq<char>|
        #[trigger] s.topics.dom().contains(t) && #[trigger] s.topics[t].contains(n) ==> s.services.dom().contains(n)
}

proof fn lemma_live_keys_all(m: Map<usize, Seq<u8>>, keys: Seq<usize>, ids: Seq<u32>)
    requires
        ids.len() == keys.len(),
        forall|i: int| 0 <= i < keys.len() ==> (#[trigger] ids[i]) as usize == keys[i],
        forall|i: int| 0 <= i < keys.len() ==> m.dom().contains(#[trigger] keys[i]),
    ensures
        live_keys(m, ids) == keys,
    decreases ids.len(),
{
    if ids.len() > 0 {
        let n = ids.len() - 1;
        assert forall|i: int| 0 <= i < keys.drop_last().len() implies (#[trigger] ids.drop_last()[i]) as usize == keys.drop_last()[i] by {
            assert(ids.drop_last()[i] == ids[i]);
        }
        assert forall|i: int| 0 <= i < keys.drop_last().len() implies m.dom().contains(#[trigger] keys.drop_last()[i]) by {
            assert(keys.drop_last()[i] == keys[i]);
        }
        lemma_live_keys_all(m, keys.drop_last(), ids.drop_last());
        assert(ids[n] as usize == keys[n]);
        assert(m.dom().contains(keys[n]));
        assert(keys.drop_last().push(keys[n]) =~= keys);
    }
}

/// Facts about one pull shared by the laws below: the keys of the batch are in
/// flight afterwards, and its ids name exactly those keys.
proof fn lemma_pulled_keys(s0: ServiceView, s1: ServiceView, count: u32, out: Seq<(u32, Seq<u8>)>, keys: Seq<usize>)
    requires
        pulled_with(s0, s1, count, out, keys),
        s1.slots <= 0x1_0000_0000,
    ensures
        live_keys(s1.in_flight, batch_ids(out)) == keys,
        keys.map_values(|k: usize| s1.in_flight[k]) == s0.queue.take(pull_count(s0, count) as int),
        s1.in_flight.remove_keys(keys.to_set()) == s0.in_flight,
{
    let k = pull_count(s0, count);
    let vals = s0.queue.take(k as int);
    assert forall|i: int| 0 <= i < keys.len() implies s1.in_flight.dom().contains(#[trigger] keys[i]) && s1.in_flight[keys[i]] == vals[i] by {
        lemma_insert_all_index(s0.in_flight, keys, vals, i);
    }
    assert forall|i: int| 0 <= i < keys.len() implies (#[trigger] batch_ids(out)[i]) as usize == keys[i] by {
        assert(out[i] == (keys[i] as u32, s0.queue[i]));
        assert(keys[i] < s1.slots);
        assert(keys[i] <= u32::MAX);
    }
    lemma_live_keys_all(s1.in_flight, keys, batch_ids(out));
    assert(keys.map_values(|key: usize| s1.in_flight[key]) =~= vals);
    lemma_insert_all_remove(s0.in_flight, keys, vals);
}

/// A pull hands out the messages at the front of the service's queue, oldest
/// first: every instance of a service draws from the one shared queue.
pub proof fn law_pull_takes_front(s0: ServiceView, s1: ServiceView, count: u32, out: Seq<(u32, Seq<u8>)>)
    requires
        pulled(s0, s1, count, out),
    ensures
        batch_payloads(out) == s0.queue.take(pull_count(s0, count) as int),
        s0.queue == batch_payloads(out) + s1.queue,
{
    let keys = choose|keys: Seq<usize>| pulled_with(s0, s1, count, out, keys);
    let k = pull_count(s0, count) as int;
    assert forall|i: int| 0 <= i < k implies #[trigger] batch_payloads(out)[i] == s0.queue.take(k)[i] by {
        assert(out[i] == (keys[i] as u32, s0.queue[i]));
    }
    assert(batch_payloads(out) =~= s0.queue.take(k));
    assert(s0.queue =~= s0.queue.take(k) + s0.queue.skip(k));
}

/// Each id that a pull hands out names the message it came with: the id, read
/// back as a key, is in flight with that message's payload. (Ids are keys cut to
/// 32 bits; this holds while the service's store has at most 2^32 slots, which a
/// pull grows by at most one per message.)
pub proof fn law_pulled_ids_name_messages(s0: ServiceView, s1: ServiceView, count: u32, out: Seq<(u32, Seq<u8>)>)
    requires
        pulled(s0, s1, count, out),
        s1.slots <= 0x1_0000_0000,
    ensures
        forall|i: int| 0 <= i < out.len() ==> #[trigger] names_message(s1.in_flight, out[i]),
{
    let keys = choose|keys: Seq<usize>| pulled_with(s0, s1, count, out, keys);
    let vals = s0.queue.take(pull_count(s0, count) as int);
    assert forall|i: int| 0 <= i < out.len() implies #[trigger] names_message(s1.in_flight, out[i]) by {
        lemma_insert_all_index(s0.in_flight, keys, vals, i);
        assert(out[i] == (keys[i] as u32, s0.queue[i]));
        assert(keys[i] < s1.slots);
        assert(keys[i] as u32 as usize == keys[i]);
    }
}

/// A pull of `count` grows the service's slot count by at most `count`, and
/// grows it only where every slot below the new count is in flight: so the slot
/// count never exceeds the most messages ever in flight at once, and a fresh
/// service (no slots) keeps within the bound that the id laws ask while fewer
/// than 2^32 of its messages have been in flight at once.
pub proof fn law_pull_slot_growth(s0: ServiceView, s1: ServiceView, count: u32, out: Seq<(u32, Seq<u8>)>)
    requires
        pulled(s0, s1, count, out),
    ensures
        s1.slots <= s0.slots + count,
        s1.slots > s0.slots ==> forall|j: usize| j < s1.slots ==> #[trigger] s1.in_flight.dom().contains(j),
{
    let keys = choose|keys: Seq<usize>| pulled_with(s0, s1, count, out, keys);
}

/// Refusing every message that a pull handed out puts them back at the end of the
/// queue in the order they were handed out, and leaves nothing of the pull in
/// flight. (Message ids are slab keys cut to 32 bits; the law holds while the
/// service's store has at most 2^32 slots.)
pub proof fn law_nack_after_pull_requeues(s0: ServiceView, s1: ServiceView, count: u32, out: Seq<(u32, Seq<u8>)>)
    requires
        pulled(s0, s1, count, out),
        s1.slots <= 0x1_0000_0000,
    ensures
        ack_ids_ok(s1, batch_ids(out)),
        spec_ack(s1, batch_ids(out), true) == (ServiceView {
            clients: s0.clients,
            queue: s0.queue.skip(pull_count(s0, count) as int) + s0.queue.take(pull_count(s0, count) as int),
            in_flight: s0.in_flight,
            slots: s1.slots,
        }),
{
    let keys = choose|keys: Seq<usize>| pulled_with(s0, s1, count, out, keys);
    lemma_pulled_keys(s0, s1, count, out, keys);
}

/// Acknowledging every message that a pull handed out removes them for good: the
/// queue keeps what the pull left and the in-flight set is as before the pull.
/// (The same bound on slots as for the NACK law.)
pub proof fn law_ack_after_pull_settles(s0: ServiceView, s1: ServiceView, count: u32, out: Seq<(u32, Seq<u8>)>)
    requires
        pulled(s0, s1, count, out),
        s1.slots <= 0x1_0000_0000,
    ensures
        ack_ids_ok(s1, batch_ids(out)),
        spec_ack(s1, batch_ids(out), false) == (ServiceView {
            clients: s0.clients,
            queue: s0.queue.skip(pull_count(s0, count) as int),
            in_flight: s0.in_flight,
            slots: s1.slots,
        }),
{
    let keys = choose|keys: Seq<usize>| pulled_with(s0, s1, count, out, keys);
    lemma_pulled_keys(s0, s1, count, out, keys);
}

/// Settling an id that is not in flight changes nothing.
pub proof fn law_unknown_ids_ignored(s: ServiceView, ids: Seq<u32>, is_nack: bool)
    requires
        forall|i: int| 0 <= i < ids.len() ==> !s.in_flight.dom().contains((#[trigger] ids[i]) as usize),
    ensures
        spec_ack(s, ids, is_nack) == s,
    decreases ids.len(),
{
    if ids.len() > 0 {
        assert forall|i: int| 0 <= i < ids.drop_last().len() implies !s.in_flight.dom().contains((#[trigger] ids.drop_last()[i]) as usize) by {
            assert(ids.drop_last()[i] == ids[i]);
        }
        law_unknown_ids_ignored(s, ids.drop_last(), is_nack);
    }
    assert(live_keys(s.in_flight, ids) =~= Seq::<usize>::empty()) by {
        lemma_live_keys_none(s.in_flight, ids);
    }
    assert(Seq::<usize>::empty().to_set() =~= Set::<usize>::empty());
    assert(s.in_flight.remove_keys(Set::<usize>::empty()) =~= s.in_flight);
    assert(s.queue + Seq::<usize>::empty().map_values(|k: usize| s.in_flight[k]) =~= s.queue);
}

proof fn lemma_live_keys_none(m: Map<usize, Seq<u8>>, ids: Seq<u32>)
    requires
        forall|i: int| 0 <= i < ids.len() ==> !m.dom().contains((#[trigger] ids[i]) as usize),
    ensures
        live_keys(m, ids).len() == 0,
    decreases ids.len(),
{
    if ids.len() > 0 {
        assert forall|i: int| 0 <= i < ids.drop_last().len() implies !m.dom().contains((#[trigger] ids.drop_last()[i]) as usize) by {
            assert(ids.drop_last()[i] == ids[i]);
        }
        lemma_live_keys_none(m, ids.drop_last());
        assert(!m.dom().contains(ids[ids.len() - 1] as usize));
    }
}

/// A push gives every registered service subscribed to the topic its own copy of
/// the messages, at the back of its queue, and leaves every other service as it
/// was.
pub proof fn law_push_copies_to_each_subscriber(s: ServerView, topic: Seq<char>, messages: Seq<Seq<u8>>, n: Seq<char>)
    requires
        s.services.dom().contains(n),
    ensures
        spec_push(s, topic, messages).services.dom() == s.services.dom(),
        spec_push(s, topic, messages).services[n] == if s.topics.dom().contains(topic) && s.topics[topic].contains(n) {
            spec_enqueue(s.services[n], messages)
        } else {
            s.services[n]
        },
        spec_push(s, topic, messages).topics == s.topics,
{
    assert(spec_push(s, topic, messages).services.dom() =~= s.services.dom());
}

/// Registering a topic twice is the same as registering it once.
pub proof fn law_register_topic_idempotent(s: ServerView, name: Seq<char>)
    ensures
        spec_register_topic(spec_register_topic(s, name), name) == spec_register_topic(s, name),
{
}

/// Registering a service twice is the same as registering it once; a registered
/// service keeps its queue.
pub proof fn law_register_service_idempotent(s: ServerView, name: Seq<char>)
    ensures
        spec_register_service(spec_register_service(s, name), name) == spec_register_service(s, name),
{
}

/// Subscribing a service to a topic twice is the same as subscribing it once.
pub proof fn law_subscribe_idempotent(s: ServerView, topic: Seq<char>, service: Seq<char>)
    ensures
        spec_subscribe(spec_subscribe(s, topic, service), topic, service) == spec_subscribe(s, topic, service),
{
    let once = spec_subscribe(s, topic, service);
    if s.topics.dom().contains(topic) && s.services.dom().contains(service) {
        assert(once.topics[topic].insert(service) =~= once.topics[topic]);
        assert(once.topics.insert(topic, once.topics[topic].insert(service)) =~= once.topics);
    }
}

/// No request removes a service or a topic, and every request keeps each topic's
/// subscribers among the registered services.
pub proof fn law_requests_keep_subscribers_registered(
    old: ServerView,
    new: ServerView,
    message: ClientToMasterMessage,
    reply: Option<PendingReply>,
)
    requires
        subscribers_registered(old),
        request_ok(old, message),
        handled(old, new, message, reply),
    ensures
        old.services.dom().subset_of(new.services.dom()),
        old.topics.dom().subset_of(new.topics.dom()),
        subscribers_registered(new),
{
    match message {
        ClientToMasterMessage::RegisterTopic { name } => {
            assert forall|t: Seq<char>, n: Seq<char>| #[trigger] new.topics.dom().contains(t) && #[trigger] new.topics[t].contains(n) implies new.services.dom().contains(n) by {
                if !old.topics.dom().contains(name@) && t == name@ {
                    assert(new.topics[t] == Set::<Seq<char>>::empty());
                } else {
                    assert(old.topics.dom().contains(t) && old.topics[t].contains(n));
                }
            }
        },
        ClientToMasterMessage::RegisterService { name } => {},
        ClientToMasterMessage::SubscribeServiceToTopic { service, topic } => {
            assert forall|t: Seq<char>, n: Seq<char>| #[trigger] new.topics.dom().contains(t) && #[trigger] new.topics[t].contains(n) implies new.services.dom().contains(n) by {
                if old.topics.dom().contains(topic@) && old.services.dom().contains(service@) && t == topic@ {
                    if n != service@ {
                        assert(old.topics[t].contains(n));
                    }
                } else {
                    assert(old.topics.dom().contains(t) && old.topics[t].contains(n));
                }
            }
        },
        ClientToMasterMessage::PushMessages { topic, messages } => {
            assert(new.services.dom() =~= old.services.dom());
        },
        ClientToMasterMessage::PullMessages { service, client, count } => {
            if old.services.dom().contains(service@) {
                assert(new.services.dom() =~= old.services.dom());
            }
        },
        ClientToMasterMessage::ACK { message_ids, service } => {
            assert(new.services.dom() =~= old.services.dom());
        },
        ClientToMasterMessage::NACK { message_ids, service } => {
            assert(new.services.dom() =~= old.services.dom());
        },
        ClientToMasterMessage::Disconnect => {},
        ClientToMasterMessage::Shutdown => {},
    }
}

} // verus!
