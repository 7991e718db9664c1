//! Instants on the time line, as nanoseconds since the Unix epoch.
use vstd::prelude::*;

verus! {

/// The earliest instant that a [`Timestamp`] can hold: jiff's
/// `Timestamp::MIN`, `-9999-01-02T01:59:59Z`.
pub const MIN_NANOSECOND: i128 = -377705023201000000000;

/// The latest instant that a [`Timestamp`] can hold: jiff's
/// `Timestamp::MAX`, `9999-12-30T22:00:00.999999999Z`.
pub const MAX_NANOSECOND: i128 = 253402207200999999999;

/// An instant, counted in nanoseconds since the Unix epoch, within the range
/// of instants that jiff can represent.
#[derive(Clone, Copy, Debug, PartialEq, Eq, Structural)]
pub struct Timestamp {
    nanos: i128,
}

impl View for Timestamp {
    type V = int;

    closed spec fn view(&self) -> int {
        self.nanos as int
    }
}

impl Timestamp {
    #[verifier::type_invariant]
    spec fn inv(self) -> bool {
        MIN_NANOSECOND <= self.nanos <= MAX_NANOSECOND
    }

    /// The timestamp `nanos` nanoseconds after the Unix epoch, if it can be
    /// represented.
    pub fn from_nanosecond(nanos: i128) -> (r: Option<Timestamp>)
        ensures
            r.is_some() <==> MIN_NANOSECOND <= nanos <= MAX_NANOSECOND,
            r matches Some(t) ==> t@ == nanos,
    {
        if MIN_NANOSECOND <= nanos && nanos <= MAX_NANOSECOND {
            Some(Timestamp { nanos })
        } else {
            None
        }
    }

    /// The number of nanoseconds since the Unix epoch.
    pub fn as_nanosecond(&self) -> (r: i128)
        ensures
            r == self@,
    {
        self.nanos
    }

    /// The Unix epoch itself.
    pub closed spec fn epoch_spec() -> Timestamp {
        Timestamp { nanos: 0 }
    }

    /// The Unix epoch itself.
    pub fn unix_epoch() -> (r: Timestamp)
        ensures
            r@ == 0,
            r == Timestamp::epoch_spec(),
    {
        Timestamp { nanos: 0 }
    }
}

} // verus!

verus! {

/// Relies on jiff's `Timestamp::to_zoned` with `TimeZone::system()` and
/// `Zoned::year`: the calendar year of the instant in the machine's time zone,
/// which is why nothing more is said of the result.
#[verifier::external_body]
pub fn year_in_system_zone(t: &Timestamp) -> (r: i16) {
    jiff::Timestamp::from_nanosecond(t.nanos).unwrap().to_zoned(jiff::tz::TimeZone::system()).year()
}

} // verus!

verus! {

/// Relies on jiff's `civil::Date::new`, `Date::at` and `DateTime::to_zoned`
/// with `TimeZone::system()`: midnight of the given day in the machine's
/// time zone, or `None` where the date is invalid or the instant out of
/// range. What it is depends on the machine's time zone, so nothing more is
/// said of it.
#[verifier::external_body]
pub fn midnight_in_system_zone(year: i16, month: i8, day: i8) -> (r: Option<Timestamp>) {
    jiff::civil::Date::new(year, month, day)
        .ok()
        .and_then(|d| d.at(0, 0, 0, 0).to_zoned(jiff::tz::TimeZone::system()).ok())
        .map(|z| Timestamp { nanos: z.timestamp().as_nanosecond() })
}

/// How jiff writes the instant `nanos` nanoseconds after the Unix epoch:
/// RFC 3339 in UTC, such as `1996-12-20T00:39:57Z`.
pub uninterp spec fn rfc3339_utc(nanos: int) -> Seq<char>;

/// Relies on jiff's `Display` for `Timestamp`, which writes RFC 3339 in UTC.
#[verifier::external_body]
pub fn format_rfc3339(t: &Timestamp) -> (r: String)
    ensures
        r@ == rfc3339_utc(t@),
{
    jiff::Timestamp::from_nanosecond(t.nanos).unwrap().to_string()
}

} // verus!
