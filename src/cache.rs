//! The cache decorator's store and decisions: results of range queries kept
//! per range, each with an expiry instant on a monotonic millisecond clock.
//!
//! A read of a fresh entry is served from the store. A read of a stale entry
//! is served too, and the entry's expiry is pushed a full time-to-live ahead
//! at once, so that reads during the refresh see it fresh and do not ask for
//! a second refresh; the caller then runs exactly one refresh in the
//! background and hands its result to [`EventCache::store`]. A miss makes
//! the caller fetch synchronously and store the result. The store is bounded:
//! when it is full, a new range evicts the range stored first.
use crate::error::Error;
use crate::event::Event;
use crate::time::Timestamp;
use std::ops::Range;
use vstd::prelude::*;

verus! {

/// A cached result: the events of one range and when they expire.
pub struct CacheEntry {
    /// The events that the source returned for the range.
    pub events: Vec<Event>,
    /// The instant, in milliseconds of the monotonic clock, from which the
    /// entry is stale.
    pub expires_at: u64,
}

/// What a read found in the store.
#[derive(Debug)]
pub enum Lookup {
    /// A fresh entry: serve these events, fetch nothing.
    Fresh(Vec<Event>),
    /// A stale entry: serve these events now and refresh the range once in
    /// the background.
    Stale(Vec<Event>),
    /// No entry: fetch the range now and store the result.
    Miss,
}

/// The abstract state of a cache: its ranges in the order in which they
/// were first stored, what each holds, its time-to-live and its capacity.
pub struct CacheView {
    /// The ranges held, as keys, in the order in which they were first stored.
    pub keys: Seq<(int, int)>,
    /// For each range held, its events and its expiry instant.
    pub entries: Map<(int, int), (Seq<Event>, int)>,
    /// How long an entry stays fresh, in milliseconds.
    pub ttl: int,
    /// The largest number of ranges held.
    pub capacity: int,
}

/// A range as a key: its two ends in nanoseconds.
pub open spec fn key_of(range: Range<Timestamp>) -> (int, int) {
    (range.start@, range.end@)
}

/// `now + ttl`, or the largest instant where that does not fit.
pub open spec fn expiry(now: int, ttl: int) -> int {
    if now + ttl > u64::MAX {
        u64::MAX as int
    } else {
        now + ttl
    }
}

/// Whether the cache holds `k` and its entry has not expired at `now`.
pub open spec fn is_fresh(v: CacheView, k: (int, int), now: int) -> bool {
    v.entries.contains_key(k) && now < v.entries[k].1
}

/// Whether the cache holds `k` and its entry has expired at `now`.
pub open spec fn is_stale(v: CacheView, k: (int, int), now: int) -> bool {
    v.entries.contains_key(k) && now >= v.entries[k].1
}

/// The number of calls into the inner source that a read of `k` at `now`
/// causes: none when fresh, one background refresh when stale, one
/// synchronous fetch on a miss.
pub open spec fn inner_calls(v: CacheView, k: (int, int), now: int) -> nat {
    if is_fresh(v, k, now) {
        0
    } else {
        1
    }
}

/// The cache after a read of `k` at `now`: a stale entry has its expiry
/// pushed a full time-to-live past `now`; otherwise nothing changes.
pub open spec fn after_lookup(v: CacheView, k: (int, int), now: int) -> CacheView {
    if is_stale(v, k, now) {
        CacheView { entries: v.entries.insert(k, (v.entries[k].0, expiry(now, v.ttl))), ..v }
    } else {
        v
    }
}

/// The cache after storing `events` for `k` at `now` with a fresh
/// time-to-live. A range already held keeps its place; a new one goes last,
/// after the range stored first is evicted if the cache is full. A cache of
/// capacity zero stores nothing.
pub open spec fn after_store(v: CacheView, k: (int, int), events: Seq<Event>, now: int) -> CacheView {
    let value = (events, expiry(now, v.ttl));
    if v.entries.contains_key(k) {
        CacheView { entries: v.entries.insert(k, value), ..v }
    } else if v.capacity == 0 {
        v
    } else if v.keys.len() < v.capacity {
        CacheView { keys: v.keys.push(k), entries: v.entries.insert(k, value), ..v }
    } else {
        CacheView {
            keys: v.keys.subrange(1, v.keys.len() as int).push(k),
            entries: v.entries.remove(v.keys[0]).insert(k, value),
            ..v
        }
    }
}

/// The number of inner calls over reads of `k` at the instants `times`, in
/// turn, starting from `v`.
pub open spec fn calls_over(v: CacheView, k: (int, int), times: Seq<int>) -> nat
    decreases times.len(),
{
    if times.len() == 0 {
        0
    } else {
        inner_calls(v, k, times[0]) + calls_over(
            after_lookup(v, k, times[0]),
            k,
            times.subrange(1, times.len() as int),
        )
    }
}

spec fn slot_key(s: (Range<Timestamp>, CacheEntry)) -> (int, int) {
    key_of(s.0)
}

spec fn slot_value(s: (Range<Timestamp>, CacheEntry)) -> (Seq<Event>, int) {
    (s.1.events@, s.1.expires_at as int)
}

spec fn holds_key(slots: Seq<(Range<Timestamp>, CacheEntry)>, k: (int, int)) -> bool {
    exists|i: int| 0 <= i < slots.len() && #[trigger] slot_key(slots[i]) == k
}

spec fn keys_of(slots: Seq<(Range<Timestamp>, CacheEntry)>) -> Seq<(int, int)> {
    slots.map_values(|s: (Range<Timestamp>, CacheEntry)| slot_key(s))
}

spec fn entries_of(slots: Seq<(Range<Timestamp>, CacheEntry)>) -> Map<(int, int), (Seq<Event>, int)> {
    Map::new(
        |k: (int, int)| holds_key(slots, k),
        |k: (int, int)|
            slot_value(
                slots[choose|i: int| 0 <= i < slots.len() && #[trigger] slot_key(slots[i]) == k],
            ),
    )
}

spec fn keys_unique(slots: Seq<(Range<Timestamp>, CacheEntry)>) -> bool {
    forall|i: int, j: int|
        0 <= i < slots.len() && 0 <= j < slots.len() && i != j ==> slot_key(slots[i]) != slot_key(
            slots[j],
        )
}

proof fn lemma_entry_at(slots: Seq<(Range<Timestamp>, CacheEntry)>, i: int)
    requires
        keys_unique(slots),
        0 <= i < slots.len(),
    ensures
        entries_of(slots).contains_key(slot_key(slots[i])),
        entries_of(slots)[slot_key(slots[i])] == slot_value(slots[i]),
{
    let k = slot_key(slots[i]);
    assert(holds_key(slots, k));
    let j = choose|j: int| 0 <= j < slots.len() && #[trigger] slot_key(slots[j]) == k;
    assert(j == i);
}

proof fn lemma_update_slot(
    slots: Seq<(Range<Timestamp>, CacheEntry)>,
    i: int,
    s: (Range<Timestamp>, CacheEntry),
)
    requires
        keys_unique(slots),
        0 <= i < slots.len(),
        slot_key(s) == slot_key(slots[i]),
    ensures
        keys_unique(slots.update(i, s)),
        keys_of(slots.update(i, s)) == keys_of(slots),
        entries_of(slots.update(i, s)) == entries_of(slots).insert(slot_key(s), slot_value(s)),
{
    let t = slots.update(i, s);
    assert(keys_unique(t)) by {
        assert forall|a: int, b: int|
            0 <= a < t.len() && 0 <= b < t.len() && a != b implies slot_key(t[a]) != slot_key(
                t[b],
            ) by {
            assert(slot_key(t[a]) == slot_key(slots[a]));
            assert(slot_key(t[b]) == slot_key(slots[b]));
        }
    }
    assert(keys_of(t) =~= keys_of(slots)) by {
        assert forall|a: int| 0 <= a < t.len() implies slot_key(t[a]) == slot_key(slots[a]) by {}
    }
    let m = entries_of(slots).insert(slot_key(s), slot_value(s));
    assert forall|k: (int, int)| #[trigger] holds_key(t, k) == m.contains_key(k) by {
        if holds_key(t, k) {
            let j = choose|j: int| 0 <= j < t.len() && #[trigger] slot_key(t[j]) == k;
            assert(slot_key(slots[j]) == k);
        }
        if holds_key(slots, k) {
            let j = choose|j: int| 0 <= j < slots.len() && #[trigger] slot_key(slots[j]) == k;
            assert(slot_key(t[j]) == k);
        }
    }
    assert forall|k: (int, int)| m.contains_key(k) implies entries_of(t)[k] == m[k] by {
        assert(holds_key(t, k));
        let j = choose|j: int| 0 <= j < t.len() && #[trigger] slot_key(t[j]) == k;
        lemma_entry_at(t, j);
        if j != i {
            lemma_entry_at(slots, j);
        }
    }
    assert(entries_of(t) =~= m);
}

proof fn lemma_push_slot(slots: Seq<(Range<Timestamp>, CacheEntry)>, s: (Range<Timestamp>, CacheEntry))
    requires
        keys_unique(slots),
        !holds_key(slots, slot_key(s)),
    ensures
        keys_unique(slots.push(s)),
        keys_of(slots.push(s)) == keys_of(slots).push(slot_key(s)),
        entries_of(slots.push(s)) == entries_of(slots).insert(slot_key(s), slot_value(s)),
{
    let t = slots.push(s);
    assert(keys_unique(t)) by {
        assert forall|a: int, b: int|
            0 <= a < t.len() && 0 <= b < t.len() && a != b implies slot_key(t[a]) != slot_key(
                t[b],
            ) by {
            if a == slots.len() {
                assert(slot_key(slots[b]) != slot_key(s));
            } else if b == slots.len() {
                assert(slot_key(slots[a]) != slot_key(s));
            }
        }
    }
    assert(keys_of(t) =~= keys_of(slots).push(slot_key(s)));
    let m = entries_of(slots).insert(slot_key(s), slot_value(s));
    assert forall|k: (int, int)| #[trigger] holds_key(t, k) == m.contains_key(k) by {
        if holds_key(t, k) {
            let j = choose|j: int| 0 <= j < t.len() && #[trigger] slot_key(t[j]) == k;
            if j < slots.len() {
                assert(slot_key(slots[j]) == k);
            }
        }
        if holds_key(slots, k) {
            let j = choose|j: int| 0 <= j < slots.len() && #[trigger] slot_key(slots[j]) == k;
            assert(slot_key(t[j]) == k);
        }
        if k == slot_key(s) {
            assert(slot_key(t[slots.len() as int]) == k);
        }
    }
    assert forall|k: (int, int)| m.contains_key(k) implies entries_of(t)[k] == m[k] by {
        assert(holds_key(t, k));
        let j = choose|j: int| 0 <= j < t.len() && #[trigger] slot_key(t[j]) == k;
        lemma_entry_at(t, j);
        if j < slots.len() {
            lemma_entry_at(slots, j);
        }
    }
    assert(entries_of(t) =~= m);
}

proof fn lemma_drop_first_slot(slots: Seq<(Range<Timestamp>, CacheEntry)>)
    requires
        keys_unique(slots),
        slots.len() > 0,
    ensures
        keys_unique(slots.remove(0)),
        keys_of(slots.remove(0)) == keys_of(slots).subrange(1, slots.len() as int),
        entries_of(slots.remove(0)) == entries_of(slots).remove(slot_key(slots[0])),
{
    let t = slots.remove(0);
    assert(forall|a: int| 0 <= a < t.len() ==> t[a] == slots[a + 1]);
    assert(keys_unique(t)) by {
        assert forall|a: int, b: int|
            0 <= a < t.len() && 0 <= b < t.len() && a != b implies slot_key(t[a]) != slot_key(
                t[b],
            ) by {
            assert(slot_key(t[a]) == slot_key(slots[a + 1]));
            assert(slot_key(t[b]) == slot_key(slots[b + 1]));
        }
    }
    assert(keys_of(t) =~= keys_of(slots).subrange(1, slots.len() as int));
    let m = entries_of(slots).remove(slot_key(slots[0]));
    assert forall|k: (int, int)| #[trigger] holds_key(t, k) == m.contains_key(k) by {
        if holds_key(t, k) {
            let j = choose|j: int| 0 <= j < t.len() && #[trigger] slot_key(t[j]) == k;
            assert(slot_key(slots[j + 1]) == k);
            assert(slot_key(slots[0]) != slot_key(slots[j + 1]));
        }
        if holds_key(slots, k) && k != slot_key(slots[0]) {
            let j = choose|j: int| 0 <= j < slots.len() && #[trigger] slot_key(slots[j]) == k;
            assert(j != 0);
            assert(slot_key(t[j - 1]) == k);
        }
    }
    assert forall|k: (int, int)| m.contains_key(k) implies entries_of(t)[k] == m[k] by {
        assert(holds_key(t, k));
        let j = choose|j: int| 0 <= j < t.len() && #[trigger] slot_key(t[j]) == k;
        lemma_entry_at(t, j);
        lemma_entry_at(slots, j + 1);
    }
    assert(entries_of(t) =~= m);
}

/// A bounded store of range query results with a time-to-live.
pub struct EventCache {
    slots: Vec<(Range<Timestamp>, CacheEntry)>,
    ttl_millis: u64,
    capacity: usize,
}

impl View for EventCache {
    type V = CacheView;

    closed spec fn view(&self) -> CacheView {
        CacheView {
            keys: keys_of(self.slots@),
            entries: entries_of(self.slots@),
            ttl: self.ttl_millis as int,
            capacity: self.capacity as int,
        }
    }
}

impl EventCache {
    /// The ranges held are distinct and no more than the capacity.
    pub closed spec fn wf(&self) -> bool {
        &&& keys_unique(self.slots@)
        &&& self.slots@.len() <= self.capacity
    }

    /// An empty cache whose entries live `ttl_millis` milliseconds and which
    /// holds at most `capacity` ranges.
    pub fn new(ttl_millis: u64, capacity: usize) -> (r: EventCache)
        ensures
            r.wf(),
            r@.keys == Seq::<(int, int)>::empty(),
            r@.entries == Map::<(int, int), (Seq<Event>, int)>::empty(),
            r@.ttl == ttl_millis,
            r@.capacity == capacity,
    {
        let r = EventCache { slots: Vec::new(), ttl_millis, capacity };
        proof {
            assert(keys_of(r.slots@) =~= Seq::<(int, int)>::empty());
            assert(entries_of(r.slots@) =~= Map::<(int, int), (Seq<Event>, int)>::empty());
        }
        r
    }

    /// The number of ranges held.
    pub fn len(&self) -> (r: usize)
        requires
            self.wf(),
        ensures
            r == self@.keys.len(),
            r <= self@.capacity,
    {
        self.slots.len()
    }

    /// Where the store holds `range`, if it does.
    fn find(&self, range: &Range<Timestamp>) -> (r: Option<usize>)
        ensures
            r matches Some(i) ==> i < self.slots@.len() && slot_key(self.slots@[i as int])
                == key_of(*range),
            r is None ==> !holds_key(self.slots@, key_of(*range)),
    {
        let start = range.start.as_nanosecond();
        let end = range.end.as_nanosecond();
        let mut i: usize = 0;
        while i < self.slots.len()
            invariant
                i <= self.slots@.len(),
                key_of(*range) == (start as int, end as int),
                forall|j: int| 0 <= j < i ==> #[trigger] slot_key(self.slots@[j]) != key_of(*range),
            decreases self.slots@.len() - i,
        {
            let s_start = self.slots[i].0.start.as_nanosecond();
            let s_end = self.slots[i].0.end.as_nanosecond();
            if s_start == start && s_end == end {
                return Some(i);
            }
            i = i + 1;
        }
        None
    }

    fn expiry_from(&self, now: u64) -> (r: u64)
        ensures
            r == expiry(now as int, self@.ttl),
    {
        if now > u64::MAX - self.ttl_millis {
            u64::MAX
        } else {
            now + self.ttl_millis
        }
    }

    /// Reads `range` at instant `now`. A fresh entry is served as it is. A
    /// stale entry is served and its expiry set a full time-to-live past
    /// `now`, so that no other read asks for a refresh meanwhile. A miss
    /// changes nothing.
    pub fn lookup(&mut self, range: &Range<Timestamp>, now: u64) -> (r: Lookup)
        requires
            old(self).wf(),
        ensures
            final(self).wf(),
            final(self)@ == after_lookup(old(self)@, key_of(*range), now as int),
            match r {
                Lookup::Fresh(es) => is_fresh(old(self)@, key_of(*range), now as int) && es@
                    == old(self)@.entries[key_of(*range)].0,
                Lookup::Stale(es) => is_stale(old(self)@, key_of(*range), now as int) && es@
                    == old(self)@.entries[key_of(*range)].0,
                Lookup::Miss => !old(self)@.entries.contains_key(key_of(*range)),
            },
    {
        match self.find(range) {
            None => Lookup::Miss,
            Some(i) => {
                proof {
                    lemma_entry_at(self.slots@, i as int);
                }
                let expires_at = self.slots[i].1.expires_at;
                let events = self.slots[i].1.events.clone();
                if now < expires_at {
                    Lookup::Fresh(events)
                } else {
                    let new_expiry = self.expiry_from(now);
                    let key = Range { start: self.slots[i].0.start, end: self.slots[i].0.end };
                    let slot = (key, CacheEntry { events: events.clone(), expires_at: new_expiry });
                    proof {
                        lemma_update_slot(self.slots@, i as int, slot);
                    }
                    self.slots.set(i, slot);
                    proof {
                        assert(self@ =~= after_lookup(old(self)@, key_of(*range), now as int));
                    }
                    Lookup::Stale(events)
                }
            },
        }
    }

    /// Stores `events` for `range` at instant `now`, to expire a full
    /// time-to-live later: after a miss's fetch, or when a background
    /// refresh succeeds.
    pub fn store(&mut self, range: Range<Timestamp>, events: Vec<Event>, now: u64)
        requires
            old(self).wf(),
        ensures
            final(self).wf(),
            final(self)@ == after_store(old(self)@, key_of(range), events@, now as int),
    {
        let ghost k = key_of(range);
        let new_expiry = self.expiry_from(now);
        let slot = (range, CacheEntry { events, expires_at: new_expiry });
        match self.find(&slot.0) {
            Some(i) => {
                proof {
                    lemma_update_slot(self.slots@, i as int, slot);
                    lemma_entry_at(self.slots@, i as int);
                }
                self.slots.set(i, slot);
                proof {
                    assert(self@ =~= after_store(old(self)@, k, events@, now as int));
                }
            },
            None => {
                if self.capacity == 0 {
                    proof {
                        assert(self@ =~= after_store(old(self)@, k, events@, now as int));
                    }
                } else if self.slots.len() < self.capacity {
                    proof {
                        lemma_push_slot(self.slots@, slot);
                    }
                    self.slots.push(slot);
                    proof {
                        assert(self@ =~= after_store(old(self)@, k, events@, now as int));
                    }
                } else {
                    proof {
                        lemma_drop_first_slot(self.slots@);
                        assert(self.slots@.remove(0).len() < self.slots@.len());
                    }
                    self.slots.remove(0);
                    proof {
                        assert(!holds_key(self.slots@, k)) by {
                            if holds_key(self.slots@, k) {
                                let j = choose|j: int|
                                    0 <= j < self.slots@.len() && #[trigger] slot_key(self.slots@[j]) == k;
                                assert(slot_key(old(self).slots@[j + 1]) == k);
                            }
                        }
                        lemma_push_slot(self.slots@, slot);
                    }
                    self.slots.push(slot);
                    proof {
                        assert(self@ =~= after_store(old(self)@, k, events@, now as int));
                    }
                }
            },
        }
    }

    /// Completes a miss with the outcome of the synchronous fetch: a
    /// successful fetch is stored at `now` and its events handed back; a
    /// failed fetch leaves the cache as it was and its error is handed back.
    pub fn complete_miss(
        &mut self,
        range: Range<Timestamp>,
        fetched: Result<Vec<Event>, Error>,
        now: u64,
    ) -> (r: Result<Vec<Event>, Error>)
        requires
            old(self).wf(),
        ensures
            final(self).wf(),
            match fetched {
                Ok(v) => (r matches Ok(w) && w@ == v@) && final(self)@ == after_store(
                    old(self)@,
                    key_of(range),
                    v@,
                    now as int,
                ),
                Err(e) => r == Err::<Vec<Event>, Error>(e) && final(self)@ == old(self)@,
            },
    {
        match fetched {
            Ok(v) => {
                let w = v.clone();
                self.store(range, v, now);
                Ok(w)
            },
            Err(e) => Err(e),
        }
    }

    /// Completes a background refresh with its outcome: a successful fetch
    /// replaces the entry at `now`; a failed one leaves the entry, with the
    /// expiry that the stale read gave it, for a later read to retry. Returns
    /// whether the entry was replaced.
    pub fn complete_refresh(
        &mut self,
        range: Range<Timestamp>,
        fetched: Result<Vec<Event>, Error>,
        now: u64,
    ) -> (r: bool)
        requires
            old(self).wf(),
        ensures
            final(self).wf(),
            r == fetched is Ok,
            match fetched {
                Ok(v) => final(self)@ == after_store(old(self)@, key_of(range), v@, now as int),
                Err(_) => final(self)@ == old(self)@,
            },
    {
        match fetched {
            Ok(v) => {
                self.store(range, v, now);
                true
            },
            Err(_) => false,
        }
    }
}

/// A read of a fresh entry is served from the store: the inner source is
/// not called and the cache does not change.
pub proof fn lemma_fresh_read_calls_nothing(v: CacheView, k: (int, int), now: int)
    requires
        is_fresh(v, k, now),
    ensures
        inner_calls(v, k, now) == 0,
        after_lookup(v, k, now) == v,
{
}

/// A read that misses calls the inner source exactly once; once its result
/// is stored, reads of the range within the time-to-live find exactly that
/// result, fresh.
pub proof fn lemma_miss_fetches_once_and_stores(
    v: CacheView,
    k: (int, int),
    events: Seq<Event>,
    now: int,
    later: int,
)
    requires
        !v.entries.contains_key(k),
        v.capacity > 0,
        now <= later < expiry(now, v.ttl),
    ensures
        inner_calls(v, k, now) == 1,
        after_lookup(v, k, now) == v,
        after_store(v, k, events, now).entries.contains_key(k),
        after_store(v, k, events, now).entries[k].0 == events,
        is_fresh(after_store(v, k, events, now), k, later),
{
}

proof fn lemma_fresh_reads_call_nothing(v: CacheView, k: (int, int), times: Seq<int>)
    requires
        forall|i: int| 0 <= i < times.len() ==> is_fresh(v, k, #[trigger] times[i]),
    ensures
        calls_over(v, k, times) == 0,
    decreases times.len(),
{
    if times.len() > 0 {
        let rest = times.subrange(1, times.len() as int);
        assert(is_fresh(v, k, times[0]));
        assert forall|i: int| 0 <= i < rest.len() implies is_fresh(v, k, #[trigger] rest[i]) by {
            assert(rest[i] == times[i + 1]);
        }
        lemma_fresh_reads_call_nothing(v, k, rest);
    }
}

/// Reads of a stale entry that all fall within one time-to-live of the
/// first of them call the inner source exactly once, for the single
/// background refresh that the first read asks for.
pub proof fn lemma_stale_reads_refresh_once(v: CacheView, k: (int, int), times: Seq<int>)
    requires
        times.len() > 0,
        is_stale(v, k, times[0]),
        forall|i: int|
            1 <= i < times.len() ==> times[0] <= #[trigger] times[i] < expiry(times[0], v.ttl),
    ensures
        calls_over(v, k, times) == 1,
{
    let w = after_lookup(v, k, times[0]);
    let rest = times.subrange(1, times.len() as int);
    assert forall|i: int| 0 <= i < rest.len() implies is_fresh(w, k, #[trigger] rest[i]) by {
        assert(rest[i] == times[i + 1]);
    }
    lemma_fresh_reads_call_nothing(w, k, rest);
}

} // verus!
