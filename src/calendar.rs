//! The snapshot holder: one consolidated, sorted list of all known events,
//! replaced whole on each successful sync and queried by range and year.
use crate::by_year::{group_by_year, grouped, year_groups, EventsByYear};
use crate::error::Error;
use crate::event::{filter_events, in_range, sort_by_start, stable_sort_of, sorted_by_start, Event};
use crate::time::{year_in_system_zone, Timestamp};
use std::ops::Range;
use vstd::prelude::*;

verus! {

/// Where calendar events come from.
#[derive(Debug, Clone, Copy, PartialEq, Eq, Structural)]
pub enum EventSourceKind {
    /// Static events from the application configuration.
    Static,
    /// Events loaded from Google Calendar.
    GoogleCalendar,
}

/// A source that answers with a fixed list of events, sorted by start once,
/// when it is made.
pub struct StaticEventSource {
    events: Vec<Event>,
}

impl View for StaticEventSource {
    type V = Seq<Event>;

    closed spec fn view(&self) -> Seq<Event> {
        self.events@
    }
}

impl StaticEventSource {
    /// A source holding `events`, sorted by start; events with equal start
    /// keep their given order.
    pub fn new(events: Vec<Event>) -> (r: StaticEventSource)
        ensures
            stable_sort_of(r@, events@),
    {
        StaticEventSource { events: sort_by_start(events) }
    }

    /// All events of the source, in start order. This cannot fail.
    pub fn fetch_events(&self) -> (r: Vec<Event>)
        ensures
            r@ == self@,
    {
        self.events.clone()
    }

    /// The events of the source that start within `range`, in start order.
    pub fn fetch_range(&self, range: &Range<Timestamp>) -> (r: Vec<Event>)
        ensures
            r@ == in_range(self@, *range),
    {
        filter_events(&self.events, range)
    }
}

/// The snapshot of all known events, kept sorted by start.
pub struct Calendar {
    events: Vec<Event>,
}

impl View for Calendar {
    type V = Seq<Event>;

    closed spec fn view(&self) -> Seq<Event> {
        self.events@
    }
}

impl Calendar {
    #[verifier::type_invariant]
    spec fn inv(self) -> bool {
        sorted_by_start(self.events@)
    }

    /// A calendar whose snapshot is empty: no sync has happened yet.
    pub fn new() -> (r: Calendar)
        ensures
            r@ == Seq::<Event>::empty(),
    {
        Calendar { events: Vec::new() }
    }

    /// The snapshot is sorted by start.
    pub fn snapshot(&self) -> (r: &Vec<Event>)
        ensures
            r@ == self@,
            sorted_by_start(r@),
    {
        proof {
            use_type_invariant(self);
        }
        &self.events
    }

    /// Events of the snapshot that start within `range`
    /// (`range.start <= start < range.end`), in snapshot order.
    pub fn get_events(&self, range: Range<Timestamp>) -> (r: Vec<Event>)
        ensures
            r@ == in_range(self@, range),
    {
        filter_events(&self.events, &range)
    }

    /// Events of the snapshot within `range`, grouped by the calendar year
    /// of their start in the machine's time zone. Years come in order of
    /// first occurrence and each keeps its events in snapshot order; which
    /// year an instant falls in is the time zone's business.
    pub fn get_events_by_year(&self, range: Range<Timestamp>) -> (r: EventsByYear)
        ensures
            exists|ys: Seq<i16>|
                ys.len() == in_range(self@, range).len() && year_groups(r) == grouped(
                    in_range(self@, range),
                    ys,
                ),
    {
        let events = self.get_events(range);
        let mut years: Vec<i16> = Vec::new();
        let mut i: usize = 0;
        while i < events.len()
            invariant
                i <= events@.len(),
                years@.len() == i,
            decreases events@.len() - i,
        {
            years.push(year_in_system_zone(&events[i].start_date));
            i = i + 1;
        }
        let ghost es = events@;
        let r = group_by_year(events, &years);
        proof {
            assert(year_groups(r) == grouped(es, years@));
        }
        r
    }

    /// Takes the outcome of one fetch of all events from the source. On
    /// success the snapshot is replaced by the fetched events sorted by start
    /// (equal starts in fetched order) and their number is returned; on
    /// failure the snapshot stays as it was and the error is handed back.
    pub fn sync_once(&mut self, fetched: Result<Vec<Event>, Error>) -> (r: Result<usize, Error>)
        ensures
            match fetched {
                Ok(v) => stable_sort_of(final(self)@, v@) && r == Ok::<usize, Error>(v@.len() as usize),
                Err(e) => final(self)@ == old(self)@ && r == Err::<usize, Error>(e),
            },
    {
        match fetched {
            Ok(v) => {
                let n = v.len();
                self.events = sort_by_start(v);
                Ok(n)
            },
            Err(e) => Err(e),
        }
    }
}

} // verus!
