//! A topic: the services that receive a copy of every message pushed to it.

use vstd::prelude::*;

verus! {

/// The names of a sequence of strings.
pub open spec fn names_of(s: Seq<String>) -> Seq<Seq<char>> {
    s.map_values(|n: String| n@)
}

/// The services subscribed to one topic. Its view lists their names in the order
/// in which they subscribed.
pub struct Topic {
    registered_services: Vec<String>,
}

impl View for Topic {
    type V = Seq<Seq<char>>;

    closed spec fn view(&self) -> Seq<Seq<char>> {
        names_of(self.registered_services@)
    }
}

impl Topic {
    /// A topic without subscribers.
    pub fn new() -> (t: Topic)
        ensures
            t@ == Seq::<Seq<char>>::empty(),
    {
        let t = Topic { registered_services: Vec::new() };
        assert(t@ =~= Seq::<Seq<char>>::empty());
        t
    }

    /// Subscribes a service; a service already subscribed stays subscribed once.
    pub fn register_service(&mut self, service_name: String)
        ensures
            final(self)@ == if old(self)@.contains(service_name@) {
                old(self)@
            } else {
                old(self)@.push(service_name@)
            },
    {
        let mut i: usize = 0;
        while i < self.registered_services.len()
            invariant
                i <= self.registered_services@.len(),
                self == old(self),
                forall|j: int| 0 <= j < i ==> #[trigger] self@[j] != service_name@,
            decreases self.registered_services.len() - i,
        {
            if self.registered_services[i] == service_name {
                assert(self@[i as int] == service_name@);
                return;
            }
            i = i + 1;
        }
        let ghost name = service_name@;
        self.registered_services.push(service_name);
        proof {
            assert(self@ =~= old(self)@.push(name));
            if old(self)@.contains(name) {
                let j = choose|j: int| 0 <= j < old(self)@.len() && old(self)@[j] == name;
                assert(false);
            }
        }
    }

    /// The subscribed services, in the order in which they subscribed.
    pub fn registered_services(&self) -> (r: &Vec<String>)
        ensures
            names_of(r@) == self@,
    {
        &self.registered_services
    }
}

} // verus!
