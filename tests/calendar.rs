use indexmap::IndexMap;
use jiff::civil::datetime;
use jiff::tz::TimeZone;
use std::ops::Range;
use wohnzimmer::calendar::{Calendar, StaticEventSource};
use wohnzimmer::error::Error;
use wohnzimmer::event::{filter_events, sort_by_start, Event};
use wohnzimmer::metrics::{detail_counts, CalendarSyncStatus};
use wohnzimmer::sync_task::{SyncAction, SyncPhase, SyncSignal, SyncTask};
use wohnzimmer::time::Timestamp;

fn date(y: i16, m: i8, d: i8) -> Timestamp {
    let nanos = datetime(y, m, d, 0, 0, 0, 0)
        .to_zoned(TimeZone::system())
        .unwrap()
        .timestamp()
        .as_nanosecond();
    Timestamp::from_nanosecond(nanos).unwrap()
}

fn event(title: &str, y: i16, m: i8, d: i8) -> Event {
    Event {
        title: title.to_string(),
        start_date: date(y, m, d),
        end_date: None,
        description: None,
    }
}

fn five_events() -> Vec<Event> {
    vec![
        event("a", 2022, 12, 30),
        event("b", 2022, 12, 31),
        event("c", 2023, 1, 1),
        event("d", 2023, 1, 2),
        event("e", 2023, 1, 1),
    ]
}

fn synced(events: Vec<Event>) -> Calendar {
    let source = StaticEventSource::new(events);
    let mut calendar = Calendar::new();
    calendar.sync_once(Ok(source.fetch_events())).unwrap();
    calendar
}

#[test]
fn events_between() {
    let calendar = synced(five_events());

    assert_eq!(
        calendar.get_events(date(2022, 12, 31)..date(2023, 1, 2)),
        vec![
            event("b", 2022, 12, 31),
            event("c", 2023, 1, 1),
            event("e", 2023, 1, 1)
        ]
    );
    assert_eq!(
        calendar.get_events(date(2022, 12, 31)..date(2023, 1, 1)),
        vec![event("b", 2022, 12, 31)]
    );
}

#[test]
fn events_by_year() {
    let calendar = synced(five_events());

    let expected = IndexMap::from([
        (2022, vec![event("a", 2022, 12, 30), event("b", 2022, 12, 31)]),
        (
            2023,
            vec![
                event("c", 2023, 1, 1),
                event("e", 2023, 1, 1),
                event("d", 2023, 1, 2),
            ],
        ),
    ]);

    assert_eq!(
        calendar.get_events_by_year(date(2022, 1, 1)..date(2023, 12, 31)),
        expected
    );
}

/// A source which counts its invocations and returns one event.
struct Counter(usize);

impl Counter {
    fn fetch_events(&mut self) -> Result<Vec<Event>, Error> {
        self.0 += 1;
        Ok(vec![event("event", 2023, 1, 1)])
    }
}

/// What the metrics collaborator would hold.
#[derive(Default)]
struct Recorded {
    events: usize,
    success: usize,
    error: usize,
}

fn sync(calendar: &mut Calendar, counter: &mut Counter, recorded: &mut Recorded) {
    let outcome = calendar.sync_once(counter.fetch_events());
    match CalendarSyncStatus::of(&outcome) {
        CalendarSyncStatus::Success => recorded.success += 1,
        CalendarSyncStatus::Error => recorded.error += 1,
    }
    if let Ok(n) = outcome {
        recorded.events = n;
    }
}

#[test]
fn calendar_sync() {
    let mut counter = Counter(0);
    let mut recorded = Recorded::default();
    let mut calendar = Calendar::new();

    let range1 = date(2023, 1, 1)..date(2023, 1, 2);
    let range2 = date(2023, 1, 2)..date(2023, 1, 3);

    // Initially, there are no events because no sync happened.
    assert_eq!(calendar.get_events(range1.clone()), vec![]);

    assert_eq!(recorded.events, 0);
    assert_eq!(recorded.success, 0);
    assert_eq!(recorded.error, 0);

    sync(&mut calendar, &mut counter, &mut recorded);

    assert_eq!(recorded.events, 1);
    assert_eq!(recorded.success, 1);
    assert_eq!(recorded.error, 0);

    assert_eq!(
        calendar.get_events(range1.clone()),
        vec![event("event", 2023, 1, 1)]
    );

    // No events in range.
    assert_eq!(calendar.get_events(range2.clone()), vec![]);

    // We only fetched the events once from the source.
    assert_eq!(counter.0, 1);

    // A task with a period of 10ms, stopped after 15ms: its timer ticks at
    // once and after 10ms.
    let mut task = SyncTask::new(10);
    assert_eq!(task.step(SyncSignal::Spawn), SyncAction::Start);
    for _ in 0..2 {
        if task.step(SyncSignal::Tick) == SyncAction::Sync {
            sync(&mut calendar, &mut counter, &mut recorded);
        }
    }

    // Stop the sync again.
    assert_eq!(task.step(SyncSignal::Cancel), SyncAction::Exit);
    assert_eq!(task.step(SyncSignal::Exited), SyncAction::Ignore);
    assert_eq!(task.current_phase(), SyncPhase::Stopped);

    // Manual `sync_once` above + initial sync + sync after 10ms = 3 syncs.
    assert_eq!(counter.0, 3);
    assert_eq!(recorded.success, 3);
    assert_eq!(recorded.error, 0);

    // Since sync is stopped, later ticks sync nothing.
    for _ in 0..2 {
        if task.step(SyncSignal::Tick) == SyncAction::Sync {
            sync(&mut calendar, &mut counter, &mut recorded);
        }
    }
    assert_eq!(counter.0, 3);
}

#[test]
fn failed_sync_keeps_snapshot() {
    let mut calendar = synced(five_events());
    let before = calendar.snapshot().clone();
    let outcome = calendar.sync_once(Err(Error::GoogleCalendar("unreachable".to_string())));
    assert_eq!(
        outcome,
        Err(Error::GoogleCalendar("unreachable".to_string()))
    );
    assert_eq!(CalendarSyncStatus::of(&outcome), CalendarSyncStatus::Error);
    assert_eq!(calendar.snapshot(), &before);
    assert_eq!(
        calendar.get_events(date(2022, 12, 31)..date(2023, 1, 1)),
        vec![event("b", 2022, 12, 31)]
    );
}

#[test]
fn successful_sync_replaces_and_sorts() {
    let mut calendar = synced(five_events());
    let outcome = calendar.sync_once(Ok(vec![
        event("late", 2024, 5, 1),
        event("early", 2024, 1, 1),
        event("late too", 2024, 5, 1),
    ]));
    assert_eq!(outcome, Ok(3));
    assert_eq!(
        calendar.snapshot(),
        &vec![
            event("early", 2024, 1, 1),
            event("late", 2024, 5, 1),
            event("late too", 2024, 5, 1)
        ]
    );
    assert_eq!(calendar.get_events(date(2022, 1, 1)..date(2023, 12, 31)), vec![]);
}

#[test]
fn static_source_sorts_once() {
    let source = StaticEventSource::new(five_events());
    let titles: Vec<String> = source
        .fetch_events()
        .into_iter()
        .map(|e| e.title)
        .collect();
    assert_eq!(titles, vec!["a", "b", "c", "e", "d"]);
    assert_eq!(
        source.fetch_range(&(date(2023, 1, 1)..date(2023, 1, 2))),
        vec![event("c", 2023, 1, 1), event("e", 2023, 1, 1)]
    );
}

#[test]
fn filter_keeps_input_order_and_bounds() {
    let events = vec![
        event("x", 2023, 3, 1),
        event("y", 2023, 1, 1),
        event("z", 2023, 2, 1),
    ];
    let range: Range<Timestamp> = date(2023, 1, 1)..date(2023, 3, 1);
    assert_eq!(
        filter_events(&events, &range),
        vec![event("y", 2023, 1, 1), event("z", 2023, 2, 1)]
    );
    let empty: Range<Timestamp> = date(2023, 3, 1)..date(2023, 1, 1);
    assert_eq!(filter_events(&events, &empty), vec![]);
    assert_eq!(filter_events(&vec![], &range), vec![]);
}

#[test]
fn sort_is_stable() {
    let sorted = sort_by_start(vec![
        event("2", 2023, 1, 2),
        event("1a", 2023, 1, 1),
        event("0", 2022, 1, 1),
        event("1b", 2023, 1, 1),
    ]);
    let titles: Vec<&str> = sorted.iter().map(|e| e.title.as_str()).collect();
    assert_eq!(titles, vec!["0", "1a", "1b", "2"]);
    assert!(sort_by_start(vec![]).is_empty());
}

#[test]
fn grouping_keeps_order_within_year() {
    let calendar = synced(vec![
        event("p", 2021, 6, 1),
        event("q", 2022, 6, 1),
        event("r", 2021, 7, 1),
    ]);
    let groups = calendar.get_events_by_year(date(2000, 1, 1)..date(2030, 1, 1));
    let years: Vec<i16> = groups.keys().copied().collect();
    assert_eq!(years, vec![2021, 2022]);
    assert_eq!(
        groups[&2021],
        vec![event("p", 2021, 6, 1), event("r", 2021, 7, 1)]
    );
}

#[test]
fn detail_counts_split_events() {
    let mut with_description = event("d", 2023, 1, 1);
    with_description.description = Some("<p>hi</p>".to_string());
    let events = vec![event("a", 2023, 1, 1), with_description, event("b", 2023, 1, 2)];
    assert_eq!(detail_counts(&events), (1, 2));
    assert_eq!(detail_counts(&vec![]), (0, 0));
}

#[test]
fn events_equal_by_start_and_title() {
    let mut a = event("a", 2023, 1, 1);
    let b = event("a", 2023, 1, 1);
    a.description = Some("other".to_string());
    assert_eq!(a, b);
    assert_ne!(a, event("a", 2023, 1, 2));
    assert_ne!(b, event("b", 2023, 1, 1));
}
