//! The state backend: an expiring cache for device codes, durable tables for
//! magic links, devices and events, and the leadership flag. Every component
//! reads and writes through one value of it, handed in by the caller.
use vstd::prelude::*;
use crate::device::DeviceAuthCode;
use crate::device_entity::DeviceEntity;
use crate::event::{Event, EventLevel};
use crate::magic_link::MagicLink;
use crate::text::same_text;

verus! {

/// A cached value with the time at which it stops being readable.
#[derive(Debug)]
pub struct CacheEntry {
    pub key: String,
    pub value: DeviceAuthCode,
    /// Seconds since the Unix epoch.
    pub expires: i64,
}

/// No two entries share a key.
pub open spec fn keys_unique(s: Seq<CacheEntry>) -> bool {
    forall|i: int, j: int| 0 <= i < j < s.len() ==> s[i].key@ != s[j].key@
}

/// Some entry holds key `k`.
pub open spec fn has_key(s: Seq<CacheEntry>, k: Seq<char>) -> bool {
    exists|i: int| 0 <= i < s.len() && s[i].key@ == k
}

/// The entry that holds key `k`.
pub open spec fn entry_of(s: Seq<CacheEntry>, k: Seq<char>) -> CacheEntry
    recommends
        has_key(s, k),
{
    s[choose|i: int| 0 <= i < s.len() && s[i].key@ == k]
}

/// What a read of key `k` at time `now` sees: expired entries are absent.
pub open spec fn live_value(s: Seq<CacheEntry>, k: Seq<char>, now: i64) -> Option<DeviceAuthCode> {
    if has_key(s, k) && now < entry_of(s, k).expires {
        Some(entry_of(s, k).value)
    } else {
        None
    }
}

/// `a` and `b` agree on every key but `k`.
pub open spec fn same_but(a: Seq<CacheEntry>, b: Seq<CacheEntry>, k: Seq<char>) -> bool {
    forall|k2: Seq<char>|
        k2 != k ==> (#[trigger] has_key(a, k2) == has_key(b, k2) && (has_key(a, k2)
            ==> entry_of(a, k2) == entry_of(b, k2)))
}

/// No two magic links share an id.
pub open spec fn ids_unique(s: Seq<MagicLink>) -> bool {
    forall|i: int, j: int| 0 <= i < j < s.len() ==> s[i].id@ != s[j].id@
}

/// No two devices share an id.
pub open spec fn device_ids_unique(s: Seq<DeviceEntity>) -> bool {
    forall|i: int, j: int| 0 <= i < j < s.len() ==> s[i].id@ != s[j].id@
}

/// Events in order of their timestamps.
pub open spec fn events_sorted(s: Seq<Event>) -> bool {
    forall|i: int, j: int| 0 <= i <= j < s.len() ==> s[i].timestamp <= s[j].timestamp
}

/// `x`, held to the range of `i64`.
pub open spec fn saturating(x: int) -> i64 {
    if x > i64::MAX {
        i64::MAX
    } else if x < i64::MIN {
        i64::MIN
    } else {
        x as i64
    }
}

/// `a + b`, held to the range of `i64`.
pub fn saturating_sum(a: i64, b: i64) -> (r: i64)
    ensures
        r == saturating(a + b),
{
    if b > 0 && a > i64::MAX - b {
        i64::MAX
    } else if b < 0 && a < i64::MIN - b {
        i64::MIN
    } else {
        a + b
    }
}

proof fn lemma_entry_at(s: Seq<CacheEntry>, k: Seq<char>, i: int)
    requires
        keys_unique(s),
        0 <= i < s.len(),
        s[i].key@ == k,
    ensures
        has_key(s, k),
        entry_of(s, k) == s[i],
{
    let c = choose|j: int| 0 <= j < s.len() && s[j].key@ == k;
    assert(0 <= c < s.len() && s[c].key@ == k);
    if c < i {
        assert(s[c].key@ != s[i].key@);
    } else if c > i {
        assert(s[i].key@ != s[c].key@);
    }
}

/// The state shared by all components of one process. A standalone node
/// always leads; a node of a replicated cluster leads only while the
/// consensus layer has elected it, and holds its own view of the replicated
/// data.
#[derive(Debug)]
pub struct StateBackend {
    pub replicated: bool,
    pub leader: bool,
    /// The "device-code" region of the cache.
    pub device_codes: Vec<CacheEntry>,
    pub magic_links: Vec<MagicLink>,
    /// The event log, oldest first.
    pub events: Vec<Event>,
    /// Devices that hold tokens.
    pub devices: Vec<DeviceEntity>,
}

impl StateBackend {
    pub open spec fn wf(&self) -> bool {
        &&& keys_unique(self.device_codes@)
        &&& ids_unique(self.magic_links@)
        &&& events_sorted(self.events@)
        &&& device_ids_unique(self.devices@)
    }

    /// Whether this node does the cluster-wide work.
    pub open spec fn leads(&self) -> bool {
        !self.replicated || self.leader
    }

    /// What a read of the device-code region sees at time `now`.
    pub open spec fn cached_code(&self, k: Seq<char>, now: i64) -> Option<DeviceAuthCode> {
        live_value(self.device_codes@, k, now)
    }

    /// A single node over a relational store.
    pub fn standalone() -> (r: StateBackend)
        ensures
            r.wf(),
            r.leads(),
            !r.replicated,
            r.device_codes@.len() == 0,
            r.magic_links@.len() == 0,
            r.events@.len() == 0,
    {
        StateBackend {
            replicated: false,
            leader: true,
            device_codes: Vec::new(),
            magic_links: Vec::new(),
            events: Vec::new(),
            devices: Vec::new(),
        }
    }

    /// A node of a replicated cluster, leading or not.
    pub fn replicated(leader: bool) -> (r: StateBackend)
        ensures
            r.wf(),
            r.replicated,
            r.leads() == leader,
            r.device_codes@.len() == 0,
            r.magic_links@.len() == 0,
            r.events@.len() == 0,
    {
        StateBackend {
            replicated: true,
            leader,
            device_codes: Vec::new(),
            magic_links: Vec::new(),
            events: Vec::new(),
            devices: Vec::new(),
        }
    }

    /// Records the outcome of an election on this node.
    pub fn set_leader(&mut self, leader: bool)
        ensures
            final(self).leader == leader,
            final(self).replicated == old(self).replicated,
            final(self).device_codes@ == old(self).device_codes@,
            final(self).magic_links@ == old(self).magic_links@,
            final(self).events@ == old(self).events@,
            final(self).devices@ == old(self).devices@,
    {
        self.leader = leader;
    }

    /// The leadership oracle: always true on a standalone node.
    pub fn is_leader(&self) -> (r: bool)
        ensures
            r == self.leads(),
    {
        !self.replicated || self.leader
    }

    fn code_index(&self, key: &str) -> (r: Option<usize>)
        requires
            self.wf(),
        ensures
            match r {
                Some(i) => i < self.device_codes@.len() && self.device_codes@[i as int].key@ == key@,
                None => !has_key(self.device_codes@, key@),
            },
    {
        let mut i: usize = 0;
        while i < self.device_codes.len()
            invariant
                i <= self.device_codes@.len(),
                forall|j: int| 0 <= j < i ==> self.device_codes@[j].key@ != key@,
            decreases self.device_codes.len() - i,
        {
            if same_text(self.device_codes[i].key.as_str(), key) {
                return Some(i);
            }
            i = i + 1;
        }
        None
    }

    /// Whether the region physically holds `key`, expired or not.
    pub fn cache_holds(&self, key: &str) -> (r: bool)
        requires
            self.wf(),
        ensures
            r == has_key(self.device_codes@, key@),
    {
        self.code_index(key).is_some()
    }

    fn remove_code_at(&mut self, i: usize)
        requires
            old(self).wf(),
            i < old(self).device_codes@.len(),
        ensures
            final(self).wf(),
            !has_key(final(self).device_codes@, old(self).device_codes@[i as int].key@),
            same_but(final(self).device_codes@, old(self).device_codes@, old(self).device_codes@[i as int].key@),
            final(self).replicated == old(self).replicated,
            final(self).leader == old(self).leader,
            final(self).magic_links@ == old(self).magic_links@,
            final(self).events@ == old(self).events@,
            final(self).devices@ == old(self).devices@,
    {
        let ghost s = self.device_codes@;
        let ghost k = s[i as int].key@;
        self.device_codes.remove(i);
        let ghost t = self.device_codes@;
        assert(t =~= s.remove(i as int));
        assert forall|k2: Seq<char>| k2 != k implies #[trigger] has_key(t, k2) == has_key(s, k2) && (
        has_key(t, k2) ==> entry_of(t, k2) == entry_of(s, k2)) by {
            if has_key(s, k2) {
                let j = choose|j: int| 0 <= j < s.len() && s[j].key@ == k2;
                assert(j != i);
                let j2 = if j < i { j } else { j - 1 };
                assert(t[j2] == s[j]);
                lemma_entry_at(t, k2, j2);
                lemma_entry_at(s, k2, j);
            }
            if has_key(t, k2) {
                let j = choose|j: int| 0 <= j < t.len() && t[j].key@ == k2;
                let j2 = if j < i { j } else { j + 1 };
                assert(s[j2] == t[j]);
            }
        }
        assert(!has_key(t, k)) by {
            if has_key(t, k) {
                let j = choose|j: int| 0 <= j < t.len() && t[j].key@ == k;
                let j2 = if j < i { j } else { j + 1 };
                assert(s[j2] == t[j]);
            }
        }
    }

    /// Removes `key` from the region.
    pub fn cache_delete(&mut self, key: &str)
        requires
            old(self).wf(),
        ensures
            final(self).wf(),
            !has_key(final(self).device_codes@, key@),
            same_but(final(self).device_codes@, old(self).device_codes@, key@),
            final(self).replicated == old(self).replicated,
            final(self).leader == old(self).leader,
            final(self).magic_links@ == old(self).magic_links@,
            final(self).events@ == old(self).events@,
            final(self).devices@ == old(self).devices@,
    {
        match self.code_index(key) {
            Some(i) => self.remove_code_at(i),
            None => {
                assert(self.device_codes@ =~= old(self).device_codes@);
            },
        }
    }

    /// Reads `key` at time `now`. An entry past its time-to-live is never
    /// returned, and the read removes it.
    pub fn cache_get(&mut self, key: &str, now: i64) -> (r: Option<DeviceAuthCode>)
        requires
            old(self).wf(),
        ensures
            final(self).wf(),
            r == old(self).cached_code(key@, now),
            r is None ==> !has_key(final(self).device_codes@, key@)
                || final(self).device_codes@ == old(self).device_codes@,
            r is Some ==> final(self).device_codes@ == old(self).device_codes@,
            !has_key(old(self).device_codes@, key@) ==> final(self).device_codes@ == old(self).device_codes@,
            has_key(old(self).device_codes@, key@) && now >= entry_of(old(self).device_codes@, key@).expires
                ==> !has_key(final(self).device_codes@, key@),
            same_but(final(self).device_codes@, old(self).device_codes@, key@),
            final(self).replicated == old(self).replicated,
            final(self).leader == old(self).leader,
            final(self).magic_links@ == old(self).magic_links@,
            final(self).events@ == old(self).events@,
            final(self).devices@ == old(self).devices@,
    {
        match self.code_index(key) {
            Some(i) => {
                proof {
                    lemma_entry_at(self.device_codes@, key@, i as int);
                }
                if now < self.device_codes[i].expires {
                    Some(self.device_codes[i].value.duplicate())
                } else {
                    self.remove_code_at(i);
                    None
                }
            },
            None => None,
        }
    }

    /// Stores `value` under `key`, readable until `now + ttl`.
    pub fn cache_put(&mut self, key: String, value: DeviceAuthCode, ttl: i64, now: i64)
        requires
            old(self).wf(),
        ensures
            final(self).wf(),
            has_key(final(self).device_codes@, key@),
            entry_of(final(self).device_codes@, key@) == (CacheEntry {
                key,
                value,
                expires: saturating(now + ttl),
            }),
            same_but(final(self).device_codes@, old(self).device_codes@, key@),
            final(self).replicated == old(self).replicated,
            final(self).leader == old(self).leader,
            final(self).magic_links@ == old(self).magic_links@,
            final(self).events@ == old(self).events@,
            final(self).devices@ == old(self).devices@,
    {
        let expires = saturating_sum(now, ttl);
        let ghost k = key@;
        let ghost e = CacheEntry { key, value, expires };
        match self.code_index(key.as_str()) {
            Some(i) => {
                self.remove_code_at(i);
            },
            None => {},
        }
        let ghost s = self.device_codes@;
        self.device_codes.push(CacheEntry { key, value, expires });
        let ghost t = self.device_codes@;
        proof {
        assert(t =~= s.push(e));
        assert(!has_key(s, k));
        assert(keys_unique(t)) by {
            assert forall|i: int, j: int| 0 <= i < j < t.len() implies t[i].key@ != t[j].key@ by {
                if j == s.len() {
                    assert(s[i].key@ != k);
                }
            }
        }
        lemma_entry_at(t, k, s.len() as int);
        assert forall|k2: Seq<char>| k2 != k implies #[trigger] has_key(t, k2) == has_key(s, k2) && (
        has_key(t, k2) ==> entry_of(t, k2) == entry_of(s, k2)) by {
            if has_key(s, k2) {
                let j = choose|j: int| 0 <= j < s.len() && s[j].key@ == k2;
                assert(t[j] == s[j]);
                lemma_entry_at(t, k2, j);
                lemma_entry_at(s, k2, j);
            }
            if has_key(t, k2) {
                let j = choose|j: int| 0 <= j < t.len() && t[j].key@ == k2;
                assert(j < s.len());
                assert(s[j] == t[j]);
            }
        }
        }
    }

    /// Appends an event to the log, after every event with the same or an
    /// earlier timestamp, so the log stays in timestamp order.
    pub fn append_event(&mut self, event: Event)
        requires
            old(self).wf(),
        ensures
            final(self).wf(),
            exists|p: int| #[trigger] insertion_point(old(self).events@, event.timestamp, p)
                && final(self).events@ == old(self).events@.insert(p, event),
            final(self).replicated == old(self).replicated,
            final(self).leader == old(self).leader,
            final(self).device_codes@ == old(self).device_codes@,
            final(self).magic_links@ == old(self).magic_links@,
            final(self).devices@ == old(self).devices@,
    {
        let ghost s = self.events@;
        let mut p: usize = self.events.len();
        while p > 0 && self.events[p - 1].timestamp > event.timestamp
            invariant
                s == self.events@,
                p <= s.len(),
                forall|j: int| p <= j < s.len() ==> s[j].timestamp > event.timestamp,
            decreases p,
        {
            p = p - 1;
        }
        let ts = event.timestamp;
        self.events.insert(p, event);
        proof {
            assert(insertion_point(s, ts, p as int));
            let t = self.events@;
            assert forall|i: int, j: int| 0 <= i <= j < t.len() implies t[i].timestamp <= t[j].timestamp by {
                if i < p && j > p {
                    assert(s[i].timestamp <= s[j - 1].timestamp);
                }
                if i > p {
                    assert(s[i - 1].timestamp <= s[j - 1].timestamp);
                }
            }
        }
    }

    /// The logged events after `since` whose level reaches `level`, oldest
    /// first.
    pub fn events_since(&self, since: i64, level: EventLevel) -> (r: Vec<Event>)
        requires
            self.wf(),
        ensures
            r@ == backlog(self.events@, since, level),
            events_sorted(r@),
    {
        let mut out: Vec<Event> = Vec::new();
        let mut i: usize = 0;
        while i < self.events.len()
            invariant
                i <= self.events@.len(),
                events_sorted(self.events@),
                out@ == backlog(self.events@.subrange(0, i as int), since, level),
                events_sorted(out@),
                forall|k: int| 0 <= k < out@.len() ==> exists|j: int| 0 <= j < i && self.events@[j] == #[trigger] out@[k],
            decreases self.events.len() - i,
        {
            let e = &self.events[i];
            assert(self.events@.subrange(0, i + 1).drop_last() =~= self.events@.subrange(0, i as int));
            if e.timestamp > since && e.level.meets(level) {
                let ghost before = out@;
                out.push(e.duplicate());
                proof {
                    assert forall|k: int| 0 <= k < out@.len() implies exists|j: int| 0 <= j < i + 1 && self.events@[j] == #[trigger] out@[k] by {
                        if k == before.len() {
                            assert(self.events@[i as int] == out@[k]);
                        } else {
                            assert(out@[k] == before[k]);
                        }
                    }
                    assert forall|a: int, b: int| 0 <= a <= b < out@.len() implies out@[a].timestamp <= out@[b].timestamp by {
                        if b == before.len() && a < b {
                            let j = choose|j: int| 0 <= j < i && self.events@[j] == before[a];
                            assert(self.events@[j].timestamp <= self.events@[i as int].timestamp);
                        }
                    }
                }
            }
            i = i + 1;
        }
        assert(self.events@.subrange(0, self.events@.len() as int) =~= self.events@);
        out
    }

    /// Deletes every event older than `threshold`; returns how many went.
    pub fn delete_events_before(&mut self, threshold: i64) -> (r: usize)
        requires
            old(self).wf(),
        ensures
            final(self).wf(),
            cleanup_cut(old(self).events@, threshold, r as int),
            final(self).events@ == old(self).events@.subrange(r as int, old(self).events@.len() as int),
            final(self).replicated == old(self).replicated,
            final(self).leader == old(self).leader,
            final(self).device_codes@ == old(self).device_codes@,
            final(self).magic_links@ == old(self).magic_links@,
            final(self).devices@ == old(self).devices@,
    {
        let mut k: usize = 0;
        while k < self.events.len() && self.events[k].timestamp < threshold
            invariant
                k <= self.events@.len(),
                forall|j: int| 0 <= j < k ==> self.events@[j].timestamp < threshold,
            decreases self.events.len() - k,
        {
            k = k + 1;
        }
        let rest = self.events.split_off(k);
        self.events = rest;
        k
    }
}

/// `p` is where an event stamped `ts` goes: after all events stamped no
/// later, before all stamped later.
pub open spec fn insertion_point(s: Seq<Event>, ts: i64, p: int) -> bool {
    &&& 0 <= p <= s.len()
    &&& forall|j: int| 0 <= j < p ==> s[j].timestamp <= ts
    &&& forall|j: int| p <= j < s.len() ==> s[j].timestamp > ts
}

/// The first `k` events, and only those, are older than `threshold`.
pub open spec fn cleanup_cut(s: Seq<Event>, threshold: i64, k: int) -> bool {
    &&& 0 <= k <= s.len()
    &&& forall|j: int| 0 <= j < k ==> s[j].timestamp < threshold
    &&& forall|j: int| k <= j < s.len() ==> s[j].timestamp >= threshold
}

/// The events after `since` whose level reaches `level`, in log order.
pub open spec fn backlog(s: Seq<Event>, since: i64, level: EventLevel) -> Seq<Event>
    decreases s.len(),
{
    if s.len() == 0 {
        Seq::empty()
    } else {
        let rest = backlog(s.drop_last(), since, level);
        let e = s.last();
        if e.timestamp > since && e.level.rank() >= level.rank() {
            rest.push(e)
        } else {
            rest
        }
    }
}

} // verus!
