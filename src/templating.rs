//! German names of weekdays and months, and how the time of an event is
//! shown.
use crate::decimal::{decimal, u32_to_string};
use crate::time::Timestamp;
use vstd::prelude::*;

verus! {

/// Nanoseconds in a day of 24 hours.
pub const NANOS_PER_DAY: i128 = 86400000000000;

/// The German short name of a weekday, counted from Monday as 1.
pub open spec fn weekday_name(weekday: int) -> Seq<char> {
    if weekday == 1 { "Mo"@ }
    else if weekday == 2 { "Di"@ }
    else if weekday == 3 { "Mi"@ }
    else if weekday == 4 { "Do"@ }
    else if weekday == 5 { "Fr"@ }
    else if weekday == 6 { "Sa"@ }
    else { "So"@ }
}

/// The German name of a month, counted from January as 1.
pub open spec fn month_name(month: int) -> Seq<char> {
    if month == 1 { "Januar"@ }
    else if month == 2 { "Februar"@ }
    else if month == 3 { "März"@ }
    else if month == 4 { "April"@ }
    else if month == 5 { "Mai"@ }
    else if month == 6 { "Juni"@ }
    else if month == 7 { "Juli"@ }
    else if month == 8 { "August"@ }
    else if month == 9 { "September"@ }
    else if month == 10 { "Oktober"@ }
    else if month == 11 { "November"@ }
    else { "Dezember"@ }
}

/// The German short name of `weekday`, counted from Monday as 1.
pub fn german_weekday(weekday: i8) -> (r: &'static str)
    requires
        1 <= weekday <= 7,
    ensures
        r@ == weekday_name(weekday as int),
{
    match weekday {
        1 => "Mo",
        2 => "Di",
        3 => "Mi",
        4 => "Do",
        5 => "Fr",
        6 => "Sa",
        _ => "So",
    }
}

/// The German name of `month`, counted from January as 1.
pub fn german_month_name(month: i8) -> (r: &'static str)
    requires
        1 <= month <= 12,
    ensures
        r@ == month_name(month as int),
{
    match month {
        1 => "Januar",
        2 => "Februar",
        3 => "März",
        4 => "April",
        5 => "Mai",
        6 => "Juni",
        7 => "Juli",
        8 => "August",
        9 => "September",
        10 => "Oktober",
        11 => "November",
        _ => "Dezember",
    }
}

/// Whether an event from `start` to `end` lasts a day or more, in which case
/// its end is shown with its date and not with its time alone.
pub fn spans_a_day(start: &Timestamp, end: &Timestamp) -> (r: bool)
    ensures
        r == (end@ - start@ >= NANOS_PER_DAY),
{
    let s = start.as_nanosecond();
    let e = end.as_nanosecond();
    if s > i128::MAX - NANOS_PER_DAY {
        false
    } else {
        e >= s + NANOS_PER_DAY
    }
}

/// A day written the German way, such as `Mi, 5. März`.
pub open spec fn date_label(weekday: int, day: int, month: int) -> Seq<char> {
    weekday_name(weekday) + ", "@ + decimal(day as nat) + ". "@ + month_name(month)
}

/// Writes a day the German way from its weekday (counted from Monday as 1),
/// its day of the month and its month: `Mi, 5. März`.
pub fn format_date(weekday: i8, day: i8, month: i8) -> (r: String)
    requires
        1 <= weekday <= 7,
        1 <= day <= 31,
        1 <= month <= 12,
    ensures
        r@ == date_label(weekday as int, day as int, month as int),
{
    let mut r = String::from_str(german_weekday(weekday));
    r.append(", ");
    r.append(u32_to_string(day as u32).as_str());
    r.append(". ");
    r.append(german_month_name(month));
    r
}

} // verus!
