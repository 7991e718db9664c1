//! The remote calendar provider: the records it returns and the query
//! parameters of one time-windowed request.
pub mod models;

use crate::decimal::{decimal, u32_to_string};
use crate::time::{format_rfc3339, rfc3339_utc, Timestamp};
use indexmap::IndexMap;
use std::ops::Range;
use vstd::prelude::*;

verus! {

/// Query parameters of a request, in the order in which they are sent.
pub type QueryParameters = IndexMap<&'static str, String>;

/// The names and values of a map of query parameters, in the map's order.
pub uninterp spec fn query_pairs(m: QueryParameters) -> Seq<(Seq<char>, Seq<char>)>;

/// Relies on `IndexMap::new`: the new map is empty.
#[verifier::external_body]
fn new_query() -> (m: QueryParameters)
    ensures
        query_pairs(m) == Seq::<(Seq<char>, Seq<char>)>::empty(),
{
    IndexMap::new()
}

/// Relies on `IndexMap::insert`: a name not yet present is appended last
/// with its value.
#[verifier::external_body]
fn insert_query(m: &mut QueryParameters, name: &'static str, value: String)
    requires
        forall|i: int|
            0 <= i < query_pairs(*old(m)).len() ==> #[trigger] query_pairs(*old(m))[i].0 != name@,
    ensures
        query_pairs(*final(m)) == query_pairs(*old(m)).push((name@, value@)),
{
    m.insert(name, value);
}

/// The query parameters of a request for events: single events only,
/// ordered by start time, then the time window, the page size and the page
/// token where given.
pub open spec fn query_for(
    date_range: Option<Range<Timestamp>>,
    event_count: Option<u32>,
    next_page_token: Option<Seq<char>>,
) -> Seq<(Seq<char>, Seq<char>)> {
    seq![("singleEvents"@, "true"@), ("orderBy"@, "startTime"@)] + match date_range {
        Some(r) => seq![("timeMin"@, rfc3339_utc(r.start@)), ("timeMax"@, rfc3339_utc(r.end@))],
        None => Seq::empty(),
    } + match event_count {
        Some(n) => seq![("maxResults"@, decimal(n as nat))],
        None => Seq::empty(),
    } + match next_page_token {
        Some(t) => seq![("pageToken"@, t)],
        None => Seq::empty(),
    }
}

/// Builds the query parameters of a request for events. Times are written
/// in RFC 3339, as the calendar API asks.
pub fn build_query_parameters(
    date_range: &Option<Range<Timestamp>>,
    event_count: &Option<u32>,
    next_page_token: &Option<String>,
) -> (r: QueryParameters)
    ensures
        query_pairs(r) == query_for(
            *date_range,
            *event_count,
            match next_page_token {
                Some(t) => Some(t@),
                None => None,
            },
        ),
{
    proof {
        reveal_strlit("singleEvents");
        reveal_strlit("orderBy");
        reveal_strlit("timeMin");
        reveal_strlit("timeMax");
        reveal_strlit("maxResults");
        reveal_strlit("pageToken");
    }
    let ghost names = seq![
        "singleEvents"@,
        "orderBy"@,
        "timeMin"@,
        "timeMax"@,
        "maxResults"@,
        "pageToken"@,
    ];
    assert(forall|i: int, j: int| 0 <= i < j < 6 ==> names[i] != names[j]) by {
        assert(names[0].len() == 12 && names[1].len() == 7 && names[4].len() == 10 && names[5].len() == 9);
        assert(names[1][0] != names[2][0] && names[1][0] != names[3][0]);
        assert(names[2][5] != names[3][5]);
    }
    let mut q = new_query();
    insert_query(&mut q, "singleEvents", "true".to_string());
    insert_query(&mut q, "orderBy", "startTime".to_string());
    let ghost after_fixed = query_pairs(q);
    match date_range {
        Some(range) => {
            insert_query(&mut q, "timeMin", format_rfc3339(&range.start));
            insert_query(&mut q, "timeMax", format_rfc3339(&range.end));
        },
        None => {},
    }
    let ghost after_range = query_pairs(q);
    match event_count {
        Some(count) => {
            insert_query(&mut q, "maxResults", u32_to_string(*count));
        },
        None => {},
    }
    let ghost after_count = query_pairs(q);
    match next_page_token {
        Some(token) => {
            insert_query(&mut q, "pageToken", token.clone());
        },
        None => {},
    }
    proof {
        assert(query_pairs(q) =~= query_for(
            *date_range,
            *event_count,
            match next_page_token {
                Some(t) => Some(t@),
                None => None,
            },
        ));
    }
    q
}

} // verus!
