//! The records that the remote calendar returns, as plain values.
use crate::event::Event as CalendarEvent;
use crate::time::{midnight_in_system_zone, Timestamp};
use vstd::prelude::*;

verus! {

/// The creator of an event.
#[derive(Debug)]
pub struct Creator {
    pub email: String,
}

/// The organizer of an event.
#[derive(Debug)]
pub struct Organizer {
    pub email: String,
    pub display_name: String,
    pub _self: bool,
}

/// A calendar day.
#[derive(Debug, Clone, Copy, PartialEq, Eq, Structural)]
pub struct Date {
    pub year: i16,
    pub month: i8,
    pub day: i8,
}

/// The start or end of an event: an instant, or a whole day.
#[derive(Debug)]
pub struct Timepoint {
    pub date_time: Option<Timestamp>,
    pub date: Option<Date>,
    pub time_zone: Option<String>,
}

/// The instant of a timepoint, given midnight of its day in the machine's
/// time zone where that could be had: its own instant where it has one, else
/// that midnight for a day, else the Unix epoch.
pub open spec fn timepoint_instant(t: Timepoint, midnight: Option<Timestamp>) -> int {
    match t.date_time {
        Some(i) => i@,
        None => match (t.date, midnight) {
            (Some(_), Some(m)) => m@,
            _ => 0,
        },
    }
}

impl Timepoint {
    /// The instant of the timepoint: its own instant where it has one, else
    /// midnight of its day in the machine's time zone, else the Unix epoch.
    pub fn to_timestamp(&self) -> (r: Timestamp)
        ensures
            self.date_time matches Some(t) ==> r == t,
            self.date_time is None && self.date is None ==> r@ == 0,
            exists|m: Option<Timestamp>| r@ == #[trigger] timepoint_instant(*self, m),
    {
        let midnight = match self.date {
            Some(d) => midnight_in_system_zone(d.year, d.month, d.day),
            None => None,
        };
        self.to_timestamp_from(midnight)
    }

    /// The instant of the timepoint, where `midnight` is midnight of its day
    /// in the machine's time zone if that could be had: its own instant where
    /// it has one, else `midnight` for a day, else the Unix epoch.
    pub fn to_timestamp_from(&self, midnight: Option<Timestamp>) -> (r: Timestamp)
        ensures
            r@ == timepoint_instant(*self, midnight),
            self.date_time matches Some(t) ==> r == t,
            self.date_time is None && self.date is Some ==> r == (match midnight {
                Some(t) => t,
                None => Timestamp::epoch_spec(),
            }),
            self.date_time is None && self.date is None ==> r@ == 0,
    {
        match self.date_time {
            Some(t) => t,
            None => match (self.date, midnight) {
                (Some(_), Some(m)) => m,
                _ => Timestamp::unix_epoch(),
            },
        }
    }
}

/// A file attached to an event.
#[derive(Debug)]
pub struct Attachment {
    pub file_url: String,
    pub title: String,
    pub mime_type: String,
    pub icon_link: String,
    pub file_id: String,
}

/// An event as the remote calendar returns it.
#[derive(Debug)]
pub struct Event {
    pub kind: String,
    pub etag: String,
    pub id: String,
    pub status: String,
    pub html_link: String,
    pub created: String,
    pub updated: String,
    pub summary: String,
    pub description: Option<String>,
    pub location: Option<String>,
    pub creator: Creator,
    pub organizer: Organizer,
    pub start: Timepoint,
    pub end: Timepoint,
    pub i_cal_uid: String,
    pub sequence: u64,
    pub event_type: String,
    pub attachments: Option<Vec<Attachment>>,
}

impl Event {
    /// The calendar event that this record describes: its title is the
    /// summary, and it always has an end.
    pub fn into_event(self) -> (r: CalendarEvent)
        ensures
            r.title == self.summary,
            r.description == self.description,
            r.end_date is Some,
            self.start.date_time matches Some(t) ==> r.start_date == t,
            self.end.date_time matches Some(t) ==> r.end_date == Some(t),
            self.start.date_time is None && self.start.date is None ==> r.start_date@ == 0,
            self.end.date_time is None && self.end.date is None ==> (r.end_date matches Some(e)
                && e@ == 0),
            exists|m: Option<Timestamp>| r.start_date@ == #[trigger] timepoint_instant(self.start, m),
            exists|m: Option<Timestamp>| r.end_date->0@ == #[trigger] timepoint_instant(self.end, m),
    {
        let start_date = self.start.to_timestamp();
        let end_date = self.end.to_timestamp();
        CalendarEvent {
            start_date,
            end_date: Some(end_date),
            title: self.summary,
            description: self.description,
        }
    }
}

/// One page of events as the remote calendar returns it.
#[derive(Debug)]
pub struct Events {
    pub kind: String,
    pub etag: String,
    pub summary: String,
    pub updated: String,
    pub time_zone: String,
    pub access_role: String,
    pub default_reminders: Vec<String>,
    pub next_sync_token: Option<String>,
    pub items: Vec<Event>,
    pub next_page_token: Option<String>,
}

} // verus!
