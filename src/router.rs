//! The event router: persists each event and decides which live
//! subscribers receive it. The caller owns the channels, delivers, and
//! reports the subscribers whose channel has closed.
use vstd::prelude::*;
use crate::event::{Event, EventLevel};
use crate::store::{backlog, insertion_point, StateBackend};

verus! {

/// A live subscriber.
#[derive(Debug, Clone)]
pub struct Subscriber {
    pub id: u64,
    pub ip: String,
    /// The least severe level this subscriber wants.
    pub level: EventLevel,
}

/// The registry of live subscribers of one process.
#[derive(Debug)]
pub struct EventRouter {
    pub subscribers: Vec<Subscriber>,
    /// The id the next subscriber gets.
    pub next_id: u64,
}

/// The ids of the subscribers that an event at `level` reaches, in
/// registration order.
pub open spec fn audience(subs: Seq<Subscriber>, level: EventLevel) -> Seq<u64>
    decreases subs.len(),
{
    if subs.len() == 0 {
        Seq::empty()
    } else {
        let rest = audience(subs.drop_last(), level);
        if level.rank() >= subs.last().level.rank() {
            rest.push(subs.last().id)
        } else {
            rest
        }
    }
}

/// The subscribers other than `id`, in order.
pub open spec fn without(subs: Seq<Subscriber>, id: u64) -> Seq<Subscriber>
    decreases subs.len(),
{
    if subs.len() == 0 {
        Seq::empty()
    } else {
        let rest = without(subs.drop_last(), id);
        if subs.last().id == id {
            rest
        } else {
            rest.push(subs.last())
        }
    }
}

impl EventRouter {
    /// Every id is below `next_id`.
    pub open spec fn wf(&self) -> bool {
        forall|i: int| 0 <= i < self.subscribers@.len() ==> (#[trigger] self.subscribers@[i]).id < self.next_id
    }

    pub fn new() -> (r: EventRouter)
        ensures
            r.wf(),
            r.subscribers@.len() == 0,
            r.next_id == 0,
    {
        EventRouter { subscribers: Vec::new(), next_id: 0 }
    }

    /// Adds a subscriber that wants `level` and above. Where `since` is
    /// given, also returns the logged events after it that reach `level`,
    /// oldest first, to be sent before any live event. Returns `None` once
    /// every id has been handed out.
    pub fn register(
        &mut self,
        store: &StateBackend,
        ip: String,
        since: Option<i64>,
        level: EventLevel,
    ) -> (r: Option<(u64, Vec<Event>)>)
        requires
            old(self).wf(),
            store.wf(),
        ensures
            final(self).wf(),
            old(self).next_id == u64::MAX ==> r is None && *final(self) == *old(self),
            old(self).next_id < u64::MAX ==> (r matches Some((id, replay)) && {
                &&& id == old(self).next_id
                &&& final(self).next_id == id + 1
                &&& final(self).subscribers@ == old(self).subscribers@.push(Subscriber { id, ip, level })
                &&& replay@ == match since {
                    Some(t) => backlog(store.events@, t, level),
                    None => Seq::empty(),
                }
            }),
    {
        if self.next_id == u64::MAX {
            return None;
        }
        let id = self.next_id;
        self.subscribers.push(Subscriber { id, ip, level });
        self.next_id = id + 1;
        let replay = match since {
            Some(t) => store.events_since(t, level),
            None => Vec::new(),
        };
        proof {
            assert forall|i: int| 0 <= i < self.subscribers@.len() implies (#[trigger] self.subscribers@[i]).id < self.next_id by {
                if i < old(self).subscribers@.len() {
                    assert(self.subscribers@[i] == old(self).subscribers@[i]);
                }
            }
        }
        Some((id, replay))
    }

    /// The subscribers that an event at `level` reaches.
    pub fn recipients(&self, level: EventLevel) -> (r: Vec<u64>)
        ensures
            r@ == audience(self.subscribers@, level),
    {
        let mut out: Vec<u64> = Vec::new();
        let mut i: usize = 0;
        while i < self.subscribers.len()
            invariant
                i <= self.subscribers@.len(),
                out@ == audience(self.subscribers@.subrange(0, i as int), level),
            decreases self.subscribers.len() - i,
        {
            assert(self.subscribers@.subrange(0, i + 1).drop_last() =~= self.subscribers@.subrange(0, i as int));
            if level.meets(self.subscribers[i].level) {
                out.push(self.subscribers[i].id);
            }
            i = i + 1;
        }
        assert(self.subscribers@.subrange(0, self.subscribers@.len() as int) =~= self.subscribers@);
        out
    }

    /// Handles one event: it is logged, and the subscribers it reaches are
    /// returned for delivery.
    pub fn route(&self, store: &mut StateBackend, event: Event) -> (r: Vec<u64>)
        requires
            old(store).wf(),
        ensures
            final(store).wf(),
            r@ == audience(self.subscribers@, event.level),
            exists|p: int| #[trigger] insertion_point(old(store).events@, event.timestamp, p)
                && final(store).events@ == old(store).events@.insert(p, event),
            final(store).device_codes@ == old(store).device_codes@,
            final(store).magic_links@ == old(store).magic_links@,
            final(store).devices@ == old(store).devices@,
    {
        let level = event.level;
        store.append_event(event);
        self.recipients(level)
    }

    /// Drops the subscriber `id`, whose channel has closed.
    pub fn remove(&mut self, id: u64)
        requires
            old(self).wf(),
        ensures
            final(self).wf(),
            final(self).next_id == old(self).next_id,
            final(self).subscribers@ == without(old(self).subscribers@, id),
    {
        let ghost s = self.subscribers@;
        let mut kept: Vec<Subscriber> = Vec::new();
        let mut i: usize = 0;
        while i < self.subscribers.len()
            invariant
                s == self.subscribers@,
                self.wf(),
                i <= s.len(),
                kept@ == without(s.subrange(0, i as int), id),
                forall|k: int| 0 <= k < kept@.len() ==> (#[trigger] kept@[k]).id < self.next_id,
            decreases s.len() - i,
        {
            assert(s.subrange(0, i + 1).drop_last() =~= s.subrange(0, i as int));
            if self.subscribers[i].id != id {
                let sub = &self.subscribers[i];
                kept.push(Subscriber { id: sub.id, ip: sub.ip.clone(), level: sub.level });
            }
            i = i + 1;
        }
        assert(s.subrange(0, s.len() as int) =~= s);
        self.subscribers = kept;
    }
}

} // verus!
