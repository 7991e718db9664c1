//! What a calendar sync reports to the metrics collaborator: the labels of
//! its series and the numbers it records.
use crate::event::Event;
use vstd::prelude::*;

verus! {

/// The namespace of all metrics of this crate.
pub const NAMESPACE: &'static str = "wohnzimmer";

/// Status of a calendar sync operation.
#[derive(Debug, Clone, Copy, PartialEq, Eq, Structural)]
pub enum CalendarSyncStatus {
    /// Calendar sync was successful.
    Success,
    /// An error occurred while syncing the calendar.
    Error,
}

impl CalendarSyncStatus {
    /// The status as a label value.
    pub fn as_str(&self) -> (r: &'static str)
        ensures
            r@ == match self {
                CalendarSyncStatus::Success => "success"@,
                CalendarSyncStatus::Error => "error"@,
            },
    {
        match self {
            CalendarSyncStatus::Success => "success",
            CalendarSyncStatus::Error => "error",
        }
    }

    /// The status of a sync whose outcome is `outcome`.
    pub fn of<T, E>(outcome: &Result<T, E>) -> (r: CalendarSyncStatus)
        ensures
            r == (if outcome is Ok {
                CalendarSyncStatus::Success
            } else {
                CalendarSyncStatus::Error
            }),
    {
        match outcome {
            Ok(_) => CalendarSyncStatus::Success,
            Err(_) => CalendarSyncStatus::Error,
        }
    }
}

/// Level of detail calendar events provide.
#[derive(Debug, Clone, Copy, PartialEq, Eq, Structural)]
pub enum EventDetail {
    /// Events with description.
    Desc,
    /// Simple events without description.
    Simple,
}

impl EventDetail {
    /// The detail level as a label value.
    pub fn as_str(&self) -> (r: &'static str)
        ensures
            r@ == match self {
                EventDetail::Desc => "description"@,
                EventDetail::Simple => "simple"@,
            },
    {
        match self {
            EventDetail::Desc => "description",
            EventDetail::Simple => "simple",
        }
    }
}

/// Whether `e` carries a description.
pub open spec fn has_description(e: Event) -> bool {
    e.description is Some
}

/// The number of events in `events` with a description and without one.
pub fn detail_counts(events: &Vec<Event>) -> (r: (usize, usize))
    ensures
        r.0 == events@.filter(|e: Event| has_description(e)).len(),
        r.1 == events@.filter(|e: Event| !has_description(e)).len(),
        r.0 + r.1 == events@.len(),
{
    let mut with: usize = 0;
    let mut without: usize = 0;
    let mut i: usize = 0;
    while i < events.len()
        invariant
            i <= events@.len(),
            with == events@.take(i as int).filter(|e: Event| has_description(e)).len(),
            without == events@.take(i as int).filter(|e: Event| !has_description(e)).len(),
            with + without == i,
        decreases events@.len() - i,
    {
        proof {
            reveal(Seq::filter);
            assert(events@.take(i as int + 1).drop_last() =~= events@.take(i as int));
        }
        if events[i].description.is_some() {
            with = with + 1;
        } else {
            without = without + 1;
        }
        i = i + 1;
    }
    proof {
        assert(events@.take(events@.len() as int) =~= events@);
    }
    (with, without)
}

} // verus!
