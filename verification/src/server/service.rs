//! A service: the queue shared by every client registered under one service name,
//! and the messages handed out but not yet acknowledged.

use std::collections::{HashSet, VecDeque};
use slab::Slab;
use vstd::prelude::*;

use crate::lemmas::lemma_push_to_set;
use crate::server::message::{NewMessage, NewMessages};

verus! {

/// Names what a slab of payloads holds: each occupied key with its payload.
pub uninterp spec fn slab_entries(s: Slab<Vec<u8>>) -> Map<usize, Seq<u8>>;

/// Names how many slots a slab of payloads has, occupied or vacant: the length of
/// its vector of entries. Every key it hands out is below it.
pub uninterp spec fn slab_slots(s: Slab<Vec<u8>>) -> usize;

/// Calls `Slab::with_capacity`; the new slab holds nothing. Its vector of
/// entries is allocated at once, which panics past `isize::MAX` bytes; an entry
/// takes at most 32 bytes, so `requires` keeps the capacity under that.
#[verifier::external_body]
fn slab_with_capacity(capacity: usize) -> (created: Slab<Vec<u8>>)
    requires
        capacity as int * 32 <= isize::MAX,
    ensures
        slab_entries(created).dom() == Set::<usize>::empty(),
        slab_slots(created) == 0,
{
    Slab::with_capacity(capacity)
}

/// Calls `Slab::insert`: the value is stored under a key that held nothing before,
/// and that key is returned. The key is the head of the slab's list of vacant
/// slots, or, where no slot is vacant, a new slot at the end: so it never exceeds
/// the slot count, and the slab grows by one slot exactly when every slot was
/// occupied. Which vacant slot heads the list (the one freed last) is left unsaid.
/// (As with std's `Vec::push`, the failure to grow the backing vector past
/// `isize::MAX` bytes is not stated.)
#[verifier::external_body]
fn slab_insert(s: &mut Slab<Vec<u8>>, val: Vec<u8>) -> (key: usize)
    ensures
        !slab_entries(*old(s)).dom().contains(key),
        slab_entries(*final(s)) == slab_entries(*old(s)).insert(key, val@),
        key <= slab_slots(*old(s)),
        key == slab_slots(*old(s)) ==> slab_slots(*final(s)) == slab_slots(*old(s)) + 1
            && forall|k: usize| k < slab_slots(*old(s)) ==> slab_entries(*old(s)).dom().contains(k),
        key < slab_slots(*old(s)) ==> slab_slots(*final(s)) == slab_slots(*old(s)),
{
    s.insert(val)
}

/// Calls `Slab::contains`: whether a value is stored under the key.
#[verifier::external_body]
fn slab_contains(s: &Slab<Vec<u8>>, key: usize) -> (b: bool)
    ensures
        b == slab_entries(*s).dom().contains(key),
{
    s.contains(key)
}

/// Calls `Slab::remove`, which panics on a vacant key: the stored value is
/// returned and the key becomes vacant.
#[verifier::external_body]
fn slab_remove(s: &mut Slab<Vec<u8>>, key: usize) -> (val: Vec<u8>)
    requires
        slab_entries(*old(s)).dom().contains(key),
    ensures
        val@ == slab_entries(*old(s))[key],
        slab_entries(*final(s)) == slab_entries(*old(s)).remove(key),
        slab_slots(*final(s)) == slab_slots(*old(s)),
{
    s.remove(key)
}

/// The payloads of a sequence of byte vectors.
pub open spec fn payloads(s: Seq<Vec<u8>>) -> Seq<Seq<u8>> {
    s.map_values(|m: Vec<u8>| m@)
}

/// What a service holds: the ids of its registered clients, its queue of
/// undelivered payloads (front first), the payloads handed out and awaiting an
/// ACK or NACK, by key, and how many keys the store of those has ever had room
/// for (every key in flight is below it).
pub struct ServiceView {
    pub clients: Set<u32>,
    pub queue: Seq<Seq<u8>>,
    pub in_flight: Map<usize, Seq<u8>>,
    pub slots: nat,
}

/// A service's queue and its unacknowledged messages.
pub struct Service {
    registered_clients: HashSet<u32>,
    unsatisfied_messages: Slab<Vec<u8>>,
    enqueued_messages: VecDeque<Vec<u8>>,
}

impl View for Service {
    type V = ServiceView;

    closed spec fn view(&self) -> ServiceView {
        ServiceView {
            clients: self.registered_clients@,
            queue: payloads(self.enqueued_messages@),
            in_flight: slab_entries(self.unsatisfied_messages),
            slots: slab_slots(self.unsatisfied_messages) as nat,
        }
    }
}

/// The service with no clients, nothing queued and nothing in flight.
pub open spec fn empty_service() -> ServiceView {
    ServiceView { clients: Set::empty(), queue: Seq::empty(), in_flight: Map::empty(), slots: 0 }
}

/// The service after `messages` are appended to the back of its queue.
pub open spec fn spec_enqueue(s: ServiceView, messages: Seq<Seq<u8>>) -> ServiceView {
    ServiceView { queue: s.queue + messages, ..s }
}

/// How many messages a pull of `count` hands out.
pub open spec fn pull_count(s: ServiceView, count: u32) -> nat {
    if count as nat <= s.queue.len() { count as nat } else { s.queue.len() }
}

/// `m` with `keys[i]` mapped to `vals[i]`, inserted in order.
pub open spec fn insert_all(m: Map<usize, Seq<u8>>, keys: Seq<usize>, vals: Seq<Seq<u8>>) -> Map<usize, Seq<u8>>
    decreases keys.len(),
{
    if keys.len() == 0 || vals.len() == 0 {
        m
    } else {
        insert_all(m, keys.drop_last(), vals.drop_last()).insert(keys.last(), vals.last())
    }
}

/// A pull of `count` from `old` that stored the handed-out payloads under `keys`
/// and answered `out`: the first `pull_count` payloads leave the front of the
/// queue, in order, each under a distinct key that was vacant before, and each is
/// answered with that key cut to 32 bits as its id. Every key is below the new
/// slot count, which grows by at most one per message, and only where every slot
/// is taken.
pub open spec fn pulled_with(
    old: ServiceView,
    new: ServiceView,
    count: u32,
    out: Seq<(u32, Seq<u8>)>,
    keys: Seq<usize>,
) -> bool {
    let k = pull_count(old, count);
    &&& out.len() == k
    &&& keys.len() == k
    &&& keys.no_duplicates()
    &&& forall|i: int| 0 <= i < k ==> !old.in_flight.dom().contains(#[trigger] keys[i])
    &&& forall|i: int| 0 <= i < k ==> #[trigger] out[i] == (keys[i] as u32, old.queue[i])
    &&& forall|i: int| 0 <= i < k ==> #[trigger] keys[i] < new.slots
    &&& new.slots <= old.slots + k
    &&& new.slots > old.slots ==> forall|j: usize| j < new.slots ==> #[trigger] new.in_flight.dom().contains(j)
    &&& new.clients == old.clients
    &&& new.queue == old.queue.skip(k as int)
    &&& new.in_flight == insert_all(old.in_flight, keys, old.queue.take(k as int))
}

/// A pull of `count` from `old` to `new` that answered `out`, for some choice of
/// the keys that the slab hands out.
pub open spec fn pulled(old: ServiceView, new: ServiceView, count: u32, out: Seq<(u32, Seq<u8>)>) -> bool {
    exists|keys: Seq<usize>| pulled_with(old, new, count, out, keys)
}

/// The keys that `ids` name and that are in flight, in the order given.
pub open spec fn live_keys(in_flight: Map<usize, Seq<u8>>, ids: Seq<u32>) -> Seq<usize>
    decreases ids.len(),
{
    if ids.len() == 0 {
        Seq::empty()
    } else {
        let rest = live_keys(in_flight, ids.drop_last());
        let key = ids.last() as usize;
        if in_flight.dom().contains(key) { rest.push(key) } else { rest }
    }
}

/// An ACK or NACK of `ids` can be carried out: no id in flight is named twice
/// (a second removal of the same key would panic).
pub open spec fn ack_ids_ok(s: ServiceView, ids: Seq<u32>) -> bool {
    live_keys(s.in_flight, ids).no_duplicates()
}

/// The service after an ACK (`is_nack` false) or NACK (`is_nack` true) of `ids`:
/// the ids in flight leave the in-flight set; on a NACK their payloads return to
/// the back of the queue in the order the ids were given. Other ids are ignored.
pub open spec fn spec_ack(s: ServiceView, ids: Seq<u32>, is_nack: bool) -> ServiceView {
    let valid = live_keys(s.in_flight, ids);
    ServiceView {
        clients: s.clients,
        queue: if is_nack { s.queue + valid.map_values(|k: usize| s.in_flight[k]) } else { s.queue },
        in_flight: s.in_flight.remove_keys(valid.to_set()),
        slots: s.slots,
    }
}

/// The keys of `insert_all(m, keys, vals)` are those of `m` and those of `keys`.
pub proof fn lemma_insert_all_dom(m: Map<usize, Seq<u8>>, keys: Seq<usize>, vals: Seq<Seq<u8>>, k: usize)
    requires
        keys.len() == vals.len(),
    ensures
        insert_all(m, keys, vals).dom().contains(k) <==> (m.dom().contains(k) || keys.contains(k)),
    decreases keys.len(),
{
    if keys.len() > 0 {
        lemma_insert_all_dom(m, keys.drop_last(), vals.drop_last(), k);
        if keys.drop_last().contains(k) {
            let j = choose|j: int| 0 <= j < keys.drop_last().len() && keys.drop_last()[j] == k;
            assert(keys[j] == k);
        }
        if keys.contains(k) && k != keys.last() {
            let j = choose|j: int| 0 <= j < keys.len() && keys[j] == k;
            assert(keys.drop_last()[j] == k);
        }
    }
}

/// Inserting one more key and value at the end of the lists.
pub proof fn lemma_insert_all_push(m: Map<usize, Seq<u8>>, keys: Seq<usize>, vals: Seq<Seq<u8>>, k: usize, v: Seq<u8>)
    requires
        keys.len() == vals.len(),
    ensures
        insert_all(m, keys.push(k), vals.push(v)) == insert_all(m, keys, vals).insert(k, v),
{
    assert(keys.push(k).drop_last() =~= keys);
    assert(vals.push(v).drop_last() =~= vals);
}

/// With distinct keys, the `i`-th key maps to the `i`-th value.
pub proof fn lemma_insert_all_index(m: Map<usize, Seq<u8>>, keys: Seq<usize>, vals: Seq<Seq<u8>>, i: int)
    requires
        keys.len() == vals.len(),
        keys.no_duplicates(),
        0 <= i < keys.len(),
    ensures
        insert_all(m, keys, vals).dom().contains(keys[i]),
        insert_all(m, keys, vals)[keys[i]] == vals[i],
    decreases keys.len(),
{
    if i < keys.len() - 1 {
        lemma_insert_all_index(m, keys.drop_last(), vals.drop_last(), i);
    }
}

/// Removing fresh distinct keys again gives back the original map.
pub proof fn lemma_insert_all_remove(m: Map<usize, Seq<u8>>, keys: Seq<usize>, vals: Seq<Seq<u8>>)
    requires
        keys.len() == vals.len(),
        keys.no_duplicates(),
        forall|i: int| 0 <= i < keys.len() ==> !m.dom().contains(#[trigger] keys[i]),
    ensures
        insert_all(m, keys, vals).remove_keys(keys.to_set()) == m,
    decreases keys.len(),
{
    if keys.len() > 0 {
        let rest = keys.drop_last();
        lemma_insert_all_remove(m, rest, vals.drop_last());
        assert(keys =~= rest.push(keys.last()));
        lemma_push_to_set(rest, keys.last());
        assert(insert_all(m, keys, vals).remove_keys(keys.to_set()) =~= insert_all(m, rest, vals.drop_last()).remove_keys(rest.to_set()));
    }
}

/// Every key that `live_keys` picks is in flight.
proof fn lemma_live_keys_in_flight(in_flight: Map<usize, Seq<u8>>, ids: Seq<u32>)
    ensures
        forall|t: int| 0 <= t < live_keys(in_flight, ids).len() ==> in_flight.dom().contains(#[trigger] live_keys(in_flight, ids)[t]),
    decreases ids.len(),
{
    if ids.len() > 0 {
        let rest = live_keys(in_flight, ids.drop_last());
        lemma_live_keys_in_flight(in_flight, ids.drop_last());
        assert forall|t: int| 0 <= t < live_keys(in_flight, ids).len() implies in_flight.dom().contains(#[trigger] live_keys(in_flight, ids)[t]) by {
            if t < rest.len() {
                assert(live_keys(in_flight, ids)[t] == rest[t]);
            }
        }
    }
}

/// A copy of a payload.
fn copy_payload(v: &Vec<u8>) -> (c: Vec<u8>)
    ensures
        c@ == v@,
{
    let c = v.clone();
    assert(c@ =~= v@);
    c
}

impl Service {
    /// A service with no clients and no messages.
    pub fn new() -> (s: Service)
        ensures
            s@ == empty_service(),
    {
        let s = Service {
            registered_clients: HashSet::new(),
            unsatisfied_messages: slab_with_capacity(10_000),
            enqueued_messages: VecDeque::new(),
        };
        assert(s@.clients =~= Set::<u32>::empty());
        assert(s@.queue =~= Seq::<Seq<u8>>::empty());
        assert(s@.in_flight =~= Map::<usize, Seq<u8>>::empty());
        s
    }

    /// Records a client id as a member of this service.
    pub fn register_client(&mut self, client_id: u32)
        ensures
            final(self)@ == (ServiceView { clients: old(self)@.clients.insert(client_id), ..old(self)@ }),
    {
        broadcast use vstd::std_specs::hash::group_hash_axioms;
        self.registered_clients.insert(client_id);
    }

    /// Hands out up to `count` messages from the front of the queue, in order;
    /// each is kept in flight under a fresh key until it is acknowledged.
    pub fn pull_messages(&mut self, count: u32) -> (r: NewMessages)
        ensures
            pulled(old(self)@, final(self)@, count, r@),
    {
        let mut messages: Vec<NewMessage> = Vec::new();
        let ghost old_s = self@;
        let ghost mut keys: Seq<usize> = Seq::empty();
        let mut i: u32 = 0;
        while i < count && self.enqueued_messages.len() > 0
            invariant
                i <= count,
                i as nat <= old_s.queue.len(),
                messages@.len() == i,
                keys.len() == i,
                keys.no_duplicates(),
                forall|j: int| 0 <= j < i ==> !old_s.in_flight.dom().contains(#[trigger] keys[j]),
                forall|j: int| 0 <= j < i ==> #[trigger] messages@[j]@ == (keys[j] as u32, old_s.queue[j]),
                self@.clients == old_s.clients,
                self@.queue == old_s.queue.skip(i as int),
                self@.in_flight == insert_all(old_s.in_flight, keys, old_s.queue.take(i as int)),
                forall|j: int| 0 <= j < i ==> #[trigger] keys[j] < self@.slots,
                self@.slots <= old_s.slots + i,
                self@.slots > old_s.slots ==> forall|t: usize| t < self@.slots ==> #[trigger] self@.in_flight.dom().contains(t),
            decreases count - i,
        {
            let ghost prev_queue = self.enqueued_messages@;
            let popped = self.enqueued_messages.pop_front();
            match popped {
                Some(message) => {
                    proof {
                        assert(message@ == payloads(prev_queue)[0]);
                        assert(payloads(self.enqueued_messages@) =~= payloads(prev_queue).skip(1));
                    }
                    let ghost prev_keys = keys;
                    let ghost prev_in_flight = self@.in_flight;
                    let ghost prev_slots = self@.slots;
                    let stored = copy_payload(&message);
                    let key = slab_insert(&mut self.unsatisfied_messages, stored);
                    proof {
                        if prev_slots > old_s.slots {
                            assert(key == prev_slots) by {
                                if key < prev_slots {
                                    assert(prev_in_flight.dom().contains(key));
                                }
                            }
                        }
                        assert forall|t: usize| self@.slots > old_s.slots && t < self@.slots implies #[trigger] self@.in_flight.dom().contains(t) by {
                            if t != key {
                                assert(prev_in_flight.dom().contains(t));
                            }
                        }
                        lemma_insert_all_dom(old_s.in_flight, prev_keys, old_s.queue.take(i as int), key);
                        keys = prev_keys.push(key);
                        assert(old_s.queue.take(i + 1) =~= old_s.queue.take(i as int).push(old_s.queue[i as int]));
                        lemma_insert_all_push(old_s.in_flight, prev_keys, old_s.queue.take(i as int), key, old_s.queue[i as int]);
                        assert(old_s.queue.skip(i as int)[0] == old_s.queue[i as int]);
                        assert(old_s.queue.skip(i + 1) =~= old_s.queue.skip(i as int).skip(1));
                        assert forall|a: int, b: int| 0 <= a < b < keys.len() implies keys[a] != keys[b] by {
                            if b == keys.len() - 1 {
                                assert(keys[a] == prev_keys[a]);
                                if keys[a] == keys[b] {
                                    assert(prev_keys.contains(key));
                                }
                            } else {
                                assert(keys[a] == prev_keys[a] && keys[b] == prev_keys[b]);
                            }
                        }
                    }
                    messages.push(NewMessage { message_id: #[verifier::truncate] (key as u32), message });
                }
                None => {}
            }
            i = i + 1;
        }
        let r = NewMessages { messages };
        proof {
            let k = pull_count(old_s, count);
            assert(i as nat == k);
            assert forall|j: int| 0 <= j < k implies #[trigger] r@[j] == (keys[j] as u32, old_s.queue[j]) by {
                assert(r@[j] == messages@[j]@);
            }
            assert(pulled_with(old_s, self@, count, r@, keys));
        }
        r
    }

    /// Settles the messages in flight under `message_ids`: an ACK drops them, a
    /// NACK puts them back at the end of the queue. Ids not in flight are ignored.
    pub fn ack_messages(&mut self, message_ids: Vec<u32>, is_nack: bool)
        requires
            ack_ids_ok(old(self)@, message_ids@),
        ensures
            final(self)@ == spec_ack(old(self)@, message_ids@, is_nack),
    {
        let ghost old_s = self@;
        let ghost ids = message_ids@;
        let mut valid_ids: Vec<usize> = Vec::new();
        let mut i: usize = 0;
        while i < message_ids.len()
            invariant
                i <= message_ids.len(),
                message_ids@ == ids,
                self@ == old_s,
                valid_ids@ == live_keys(old_s.in_flight, ids.take(i as int)),
            decreases message_ids.len() - i,
        {
            let id = message_ids[i] as usize;
            if slab_contains(&self.unsatisfied_messages, id) {
                valid_ids.push(id);
            }
            proof {
                assert(ids.take(i + 1).drop_last() =~= ids.take(i as int));
            }
            i = i + 1;
        }
        proof {
            assert(ids.take(i as int) =~= ids);
            lemma_live_keys_in_flight(old_s.in_flight, ids);
        }
        let ghost valid = valid_ids@;
        let mut pending: Vec<Vec<u8>> = Vec::new();
        let mut j: usize = 0;
        while j < valid_ids.len()
            invariant
                j <= valid_ids.len(),
                valid_ids@ == valid,
                valid.no_duplicates(),
                forall|t: int| 0 <= t < valid.len() ==> old_s.in_flight.dom().contains(#[trigger] valid[t]),
                self@.clients == old_s.clients,
                self@.queue == old_s.queue,
                self@.slots == old_s.slots,
                self@.in_flight == old_s.in_flight.remove_keys(valid.take(j as int).to_set()),
                payloads(pending@) == valid.take(j as int).map_values(|k: usize| old_s.in_flight[k]),
            decreases valid_ids.len() - j,
        {
            let key = valid_ids[j];
            proof {
                if valid.take(j as int).contains(key) {
                    let t = choose|t: int| 0 <= t < j && valid.take(j as int)[t] == key;
                    assert(valid[t] == valid[j as int]);
                }
            }
            let payload = slab_remove(&mut self.unsatisfied_messages, key);
            let ghost prev = pending@;
            pending.push(payload);
            proof {
                assert(valid.take(j + 1) =~= valid.take(j as int).push(key));
                lemma_push_to_set(valid.take(j as int), key);
                assert(self@.in_flight =~= old_s.in_flight.remove_keys(valid.take(j + 1).to_set()));
                assert(payloads(pending@) =~= payloads(prev).push(payload@));
                assert(valid.take(j + 1).map_values(|k: usize| old_s.in_flight[k]) =~= valid.take(j as int).map_values(|k: usize| old_s.in_flight[k]).push(old_s.in_flight[key]));
            }
            j = j + 1;
        }
        proof {
            assert(valid.take(j as int) =~= valid);
        }
        if is_nack {
            self.enqueue_messages(pending);
        }
    }

    /// Whether an ACK or NACK of `message_ids` can be carried out, that is,
    /// whether no id in flight is named twice.
    pub fn ack_ids_acceptable(&self, message_ids: &Vec<u32>) -> (b: bool)
        ensures
            b == ack_ids_ok(self@, message_ids@),
    {
        let ghost ids = message_ids@;
        let mut valid_ids: Vec<usize> = Vec::new();
        let mut i: usize = 0;
        while i < message_ids.len()
            invariant
                i <= message_ids.len(),
                message_ids@ == ids,
                valid_ids@ == live_keys(self@.in_flight, ids.take(i as int)),
            decreases message_ids.len() - i,
        {
            let id = message_ids[i] as usize;
            if slab_contains(&self.unsatisfied_messages, id) {
                valid_ids.push(id);
            }
            proof {
                assert(ids.take(i + 1).drop_last() =~= ids.take(i as int));
            }
            i = i + 1;
        }
        proof {
            assert(ids.take(i as int) =~= ids);
        }
        let ghost valid = valid_ids@;
        let mut a: usize = 0;
        while a < valid_ids.len()
            invariant
                valid_ids@ == valid,
                valid == live_keys(self@.in_flight, message_ids@),
                a <= valid.len(),
                forall|x: int, y: int| 0 <= x < a && x < y < valid.len() ==> valid[x] != valid[y],
            decreases valid_ids.len() - a,
        {
            let mut b: usize = a + 1;
            while b < valid_ids.len()
                invariant
                    valid_ids@ == valid,
                    valid == live_keys(self@.in_flight, message_ids@),
                    a < valid.len(),
                    a < b <= valid.len(),
                    forall|y: int| a < y < b ==> valid[a as int] != valid[y],
                decreases valid_ids.len() - b,
            {
                if valid_ids[a] == valid_ids[b] {
                    assert(valid[a as int] == valid[b as int]);
                    return false;
                }
                b = b + 1;
            }
            a = a + 1;
        }
        true
    }

    /// Appends `messages` to the back of the queue.
    pub fn enqueue_messages(&mut self, messages: Vec<Vec<u8>>)
        ensures
            final(self)@ == spec_enqueue(old(self)@, payloads(messages@)),
    {
        let mut messages = messages;
        let ghost all = messages@;
        let mut i: usize = 0;
        let n = messages.len();
        while i < n
            invariant
                n == all.len(),
                i <= n,
                messages@ == all,
                payloads(self.enqueued_messages@) == payloads(old(self).enqueued_messages@) + payloads(all.take(i as int)),
                self.registered_clients == old(self).registered_clients,
                self.unsatisfied_messages == old(self).unsatisfied_messages,
            decreases n - i,
        {
            let m = copy_payload(&messages[i]);
            let ghost prev = self.enqueued_messages@;
            self.enqueued_messages.push_back(m);
            proof {
                assert(self.enqueued_messages@ == prev.push(m));
                assert(payloads(self.enqueued_messages@) =~= payloads(prev).push(m@));
                assert(all.take(i + 1) =~= all.take(i as int).push(all[i as int]));
                assert(payloads(all.take(i + 1)) =~= payloads(all.take(i as int)).push(all[i as int]@));
                assert(payloads(self.enqueued_messages@) =~= payloads(old(self).enqueued_messages@) + payloads(all.take(i + 1)));
            }
            i = i + 1;
        }
        proof {
            assert(all.take(n as int) =~= all);
        }
    }
}

} // verus!
