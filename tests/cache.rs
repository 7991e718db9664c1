use std::ops::Range;
use wohnzimmer::cache::{EventCache, Lookup};
use wohnzimmer::event::Event;
use wohnzimmer::time::Timestamp;

fn ts(seconds: i128) -> Timestamp {
    Timestamp::from_nanosecond(seconds * 1_000_000_000).unwrap()
}

fn range(a: i128, b: i128) -> Range<Timestamp> {
    ts(a)..ts(b)
}

fn event(title: &str, at: i128) -> Event {
    Event {
        start_date: ts(at),
        end_date: None,
        title: title.to_string(),
        description: None,
    }
}

/// An inner source that counts its calls and answers with one event named
/// after the call.
struct Inner {
    calls: usize,
}

impl Inner {
    fn fetch_range(&mut self, r: &Range<Timestamp>) -> Vec<Event> {
        self.calls += 1;
        vec![Event {
            start_date: r.start,
            end_date: None,
            title: format!("call {}", self.calls),
            description: None,
        }]
    }
}

/// Serves `r` at `now` the way the decorator does; a background refresh is
/// run to completion at once.
fn get(cache: &mut EventCache, inner: &mut Inner, r: &Range<Timestamp>, now: u64) -> Vec<Event> {
    match cache.lookup(r, now) {
        Lookup::Fresh(events) => events,
        Lookup::Stale(events) => {
            let refreshed = inner.fetch_range(r);
            cache.store(r.clone(), refreshed, now);
            events
        }
        Lookup::Miss => {
            let events = inner.fetch_range(r);
            cache.store(r.clone(), events.clone(), now);
            events
        }
    }
}

#[test]
fn cache_ttl_scenario() {
    let mut cache = EventCache::new(100, 10);
    let mut inner = Inner { calls: 0 };
    let first = range(0, 10);
    let second = range(10, 20);

    get(&mut cache, &mut inner, &first, 0);
    get(&mut cache, &mut inner, &second, 0);
    assert_eq!(inner.calls, 2);

    get(&mut cache, &mut inner, &first, 50);
    assert_eq!(inner.calls, 2);

    get(&mut cache, &mut inner, &first, 150);
    get(&mut cache, &mut inner, &second, 150);
    assert_eq!(inner.calls, 4);
}

#[test]
fn fresh_entry_is_served_without_fetch() {
    let mut cache = EventCache::new(100, 10);
    let r = range(0, 10);
    cache.store(r.clone(), vec![event("x", 1)], 0);
    match cache.lookup(&r, 99) {
        Lookup::Fresh(events) => assert_eq!(events, vec![event("x", 1)]),
        other => panic!("expected a fresh hit, got {:?}", other),
    }
}

#[test]
fn miss_fetches_once_and_stores() {
    let mut cache = EventCache::new(100, 10);
    let mut inner = Inner { calls: 0 };
    let r = range(0, 10);
    assert!(matches!(cache.lookup(&r, 0), Lookup::Miss));
    let got = get(&mut cache, &mut inner, &r, 0);
    assert_eq!(inner.calls, 1);
    assert_eq!(got[0].title, "call 1");
    match cache.lookup(&r, 1) {
        Lookup::Fresh(events) => assert_eq!(events[0].title, "call 1"),
        other => panic!("expected a fresh hit, got {:?}", other),
    }
    assert_eq!(cache.len(), 1);
}

#[test]
fn stale_hits_schedule_one_refresh() {
    let mut cache = EventCache::new(100, 10);
    let r = range(0, 10);
    cache.store(r.clone(), vec![event("old", 1)], 0);

    // Many readers find the entry stale during one refresh window.
    let mut refreshes = 0;
    for now in [100u64, 100, 120, 199] {
        match cache.lookup(&r, now) {
            Lookup::Stale(events) => {
                assert_eq!(events, vec![event("old", 1)]);
                refreshes += 1;
            }
            Lookup::Fresh(events) => assert_eq!(events, vec![event("old", 1)]),
            Lookup::Miss => panic!("entry lost"),
        }
    }
    assert_eq!(refreshes, 1);

    // The refresh lands and replaces the entry.
    cache.store(r.clone(), vec![event("new", 2)], 130);
    match cache.lookup(&r, 200) {
        Lookup::Fresh(events) => assert_eq!(events, vec![event("new", 2)]),
        other => panic!("expected a fresh hit, got {:?}", other),
    }
}

#[test]
fn failed_refresh_keeps_stale_entry() {
    let mut cache = EventCache::new(100, 10);
    let r = range(0, 10);
    cache.store(r.clone(), vec![event("old", 1)], 0);
    assert!(matches!(cache.lookup(&r, 100), Lookup::Stale(_)));
    // The refresh fails: nothing is stored. The entry is served again and
    // retried once the extended expiry passes.
    assert!(matches!(cache.lookup(&r, 150), Lookup::Fresh(_)));
    match cache.lookup(&r, 200) {
        Lookup::Stale(events) => assert_eq!(events, vec![event("old", 1)]),
        other => panic!("expected a stale hit, got {:?}", other),
    }
}

#[test]
fn zero_ttl_is_always_stale() {
    let mut cache = EventCache::new(0, 10);
    let r = range(0, 10);
    cache.store(r.clone(), vec![event("x", 1)], 5);
    assert!(matches!(cache.lookup(&r, 5), Lookup::Stale(_)));
    assert!(matches!(cache.lookup(&r, 5), Lookup::Stale(_)));
}

#[test]
fn full_cache_evicts_first_stored() {
    let mut cache = EventCache::new(100, 2);
    cache.store(range(0, 1), vec![], 0);
    cache.store(range(1, 2), vec![], 0);
    cache.store(range(0, 1), vec![event("again", 0)], 1);
    assert_eq!(cache.len(), 2);
    cache.store(range(2, 3), vec![], 2);
    assert_eq!(cache.len(), 2);
    assert!(matches!(cache.lookup(&range(0, 1), 3), Lookup::Miss));
    assert!(matches!(cache.lookup(&range(1, 2), 3), Lookup::Fresh(_)));
    assert!(matches!(cache.lookup(&range(2, 3), 3), Lookup::Fresh(_)));
}

#[test]
fn zero_capacity_stores_nothing() {
    let mut cache = EventCache::new(100, 0);
    cache.store(range(0, 1), vec![event("x", 0)], 0);
    assert_eq!(cache.len(), 0);
    assert!(matches!(cache.lookup(&range(0, 1), 0), Lookup::Miss));
}

#[test]
fn expiry_saturates_at_the_end_of_the_clock() {
    let mut cache = EventCache::new(100, 1);
    let r = range(0, 1);
    cache.store(r.clone(), vec![], u64::MAX - 10);
    assert!(matches!(cache.lookup(&r, u64::MAX - 1), Lookup::Fresh(_)));
    assert!(matches!(cache.lookup(&r, u64::MAX), Lookup::Stale(_)));
}

#[test]
fn failed_miss_stores_nothing() {
    let mut cache = EventCache::new(100, 10);
    let r = range(0, 10);
    let failure = wohnzimmer::error::Error::GoogleCalendar("down".to_string());
    assert_eq!(
        cache.complete_miss(r.clone(), Err(failure), 0),
        Err(wohnzimmer::error::Error::GoogleCalendar("down".to_string()))
    );
    assert_eq!(cache.len(), 0);
    assert!(matches!(cache.lookup(&r, 0), Lookup::Miss));
    assert_eq!(
        cache.complete_miss(r.clone(), Ok(vec![event("x", 1)]), 0),
        Ok(vec![event("x", 1)])
    );
    match cache.lookup(&r, 99) {
        Lookup::Fresh(events) => assert_eq!(events, vec![event("x", 1)]),
        other => panic!("expected a fresh hit, got {:?}", other),
    }
}

#[test]
fn refresh_outcome_replaces_or_keeps() {
    let mut cache = EventCache::new(100, 10);
    let r = range(0, 10);
    cache.store(r.clone(), vec![event("old", 1)], 0);
    assert!(matches!(cache.lookup(&r, 100), Lookup::Stale(_)));
    let failure = wohnzimmer::error::Error::GoogleCalendar("down".to_string());
    assert!(!cache.complete_refresh(r.clone(), Err(failure), 110));
    match cache.lookup(&r, 150) {
        Lookup::Fresh(events) => assert_eq!(events, vec![event("old", 1)]),
        other => panic!("expected a fresh hit, got {:?}", other),
    }
    assert!(cache.complete_refresh(r.clone(), Ok(vec![event("new", 2)]), 160));
    match cache.lookup(&r, 250) {
        Lookup::Fresh(events) => assert_eq!(events, vec![event("new", 2)]),
        other => panic!("expected a fresh hit, got {:?}", other),
    }
}
