//! Calendar events, and the pure operations on lists of them: filtering by
//! a time range and stable sorting by start time.
use crate::time::Timestamp;
use std::ops::Range;
use vstd::prelude::*;

verus! {

/// A single calendar event.
#[derive(Debug)]
pub struct Event {
    /// The start of the event.
    pub start_date: Timestamp,
    /// The end of the event, if any.
    pub end_date: Option<Timestamp>,
    /// The event title.
    pub title: String,
    /// The event description, as HTML, if any.
    pub description: Option<String>,
}

impl Clone for Event {
    fn clone(&self) -> (r: Self)
        ensures
            r == *self,
    {
        let description = match &self.description {
            Some(d) => Some(d.clone()),
            None => None,
        };
        Event {
            start_date: self.start_date,
            end_date: self.end_date,
            title: self.title.clone(),
            description,
        }
    }
}

impl Event {
    /// The event as shown in text: its title.
    pub fn to_display_string(&self) -> (r: String)
        ensures
            r@ == self.title@,
    {
        self.title.clone()
    }
}

/// Two events are equal when they share start and title.
impl PartialEq for Event {
    fn eq(&self, o: &Event) -> (r: bool) {
        self.start_date.as_nanosecond() == o.start_date.as_nanosecond() && self.title == o.title
    }
}

impl vstd::std_specs::cmp::PartialEqSpecImpl for Event {
    open spec fn obeys_eq_spec() -> bool {
        true
    }

    open spec fn eq_spec(&self, o: &Event) -> bool {
        self.start_date@ == o.start_date@ && self.title@ == o.title@
    }
}

impl Eq for Event {
}

/// The start of an event, as nanoseconds since the Unix epoch.
pub open spec fn start_of(e: Event) -> int {
    e.start_date@
}

/// Whether the half-open `range` holds the start of `e`.
pub open spec fn range_holds(range: Range<Timestamp>, e: Event) -> bool {
    range.start@ <= start_of(e) < range.end@
}

/// The events of `s` that start within `range`, in their order in `s`.
pub open spec fn in_range(s: Seq<Event>, range: Range<Timestamp>) -> Seq<Event> {
    s.filter(|e: Event| range_holds(range, e))
}

/// The events of `s` that start at instant `k`, in their order in `s`.
pub open spec fn starting_at(s: Seq<Event>, k: int) -> Seq<Event> {
    s.filter(|e: Event| start_of(e) == k)
}

/// Whether the starts in `s` never decrease.
pub open spec fn sorted_by_start(s: Seq<Event>) -> bool {
    forall|i: int, j: int| 0 <= i < j < s.len() ==> start_of(s[i]) <= start_of(s[j])
}

/// Whether `out` is `s` sorted by start, with events of equal start kept in
/// their order in `s`. For each instant the events that start there form the
/// same sequence in both; with the order of starts this fixes `out`.
pub open spec fn stable_sort_of(out: Seq<Event>, s: Seq<Event>) -> bool {
    &&& sorted_by_start(out)
    &&& forall|k: int| #[trigger] starting_at(out, k) == starting_at(s, k)
}

/// Whether `range` holds the start of `e`.
pub fn range_contains(range: &Range<Timestamp>, e: &Event) -> (r: bool)
    ensures
        r == range_holds(*range, *e),
{
    range.start.as_nanosecond() <= e.start_date.as_nanosecond() && e.start_date.as_nanosecond()
        < range.end.as_nanosecond()
}

/// Returns the events of `events` that start within `range`
/// (`range.start <= start < range.end`), in their order in `events`.
pub fn filter_events(events: &Vec<Event>, range: &Range<Timestamp>) -> (r: Vec<Event>)
    ensures
        r@ == in_range(events@, *range),
{
    let mut r: Vec<Event> = Vec::new();
    let mut i: usize = 0;
    while i < events.len()
        invariant
            i <= events@.len(),
            r@ == in_range(events@.take(i as int), *range),
        decreases events@.len() - i,
    {
        proof {
            reveal(Seq::filter);
            assert(events@.take(i as int + 1).drop_last() =~= events@.take(i as int));
        }
        if range_contains(range, &events[i]) {
            r.push(events[i].clone());
        }
        i = i + 1;
    }
    proof {
        assert(events@.take(events@.len() as int) =~= events@);
    }
    r
}

proof fn lemma_starting_at_push(s: Seq<Event>, e: Event, k: int)
    ensures
        starting_at(s.push(e), k) == if start_of(e) == k {
            starting_at(s, k).push(e)
        } else {
            starting_at(s, k)
        },
{
    reveal(Seq::filter);
    assert(s.push(e).drop_last() =~= s);
}

proof fn lemma_starting_at_none(s: Seq<Event>, k: int)
    requires
        forall|i: int| 0 <= i < s.len() ==> start_of(s[i]) != k,
    ensures
        starting_at(s, k) == Seq::<Event>::empty(),
    decreases s.len(),
{
    reveal(Seq::filter);
    if s.len() > 0 {
        lemma_starting_at_none(s.drop_last(), k);
    }
}

/// Inserting `e` where the events before start no later and the events after
/// start strictly later adds `e` to the end of its own start's sequence.
proof fn lemma_starting_at_insert(v: Seq<Event>, p: int, e: Event, k: int)
    requires
        0 <= p <= v.len(),
        forall|j: int| p <= j < v.len() ==> start_of(v[j]) > start_of(e),
    ensures
        starting_at(v.insert(p, e), k) == if start_of(e) == k {
            starting_at(v, k).push(e)
        } else {
            starting_at(v, k)
        },
{
    let pred = |x: Event| start_of(x) == k;
    let a = v.subrange(0, p);
    let b = v.subrange(p, v.len() as int);
    assert(v =~= a + b);
    assert(v.insert(p, e) =~= a.push(e) + b);
    Seq::filter_distributes_over_add(a, b, pred);
    Seq::filter_distributes_over_add(a.push(e), b, pred);
    lemma_starting_at_push(a, e, k);
    if start_of(e) == k {
        lemma_starting_at_none(b, k);
        assert(starting_at(b, k) =~= Seq::<Event>::empty());
        assert(starting_at(v, k) =~= starting_at(a, k));
        assert(starting_at(v.insert(p, e), k) =~= starting_at(a, k).push(e));
    }
}

/// Returns `events` sorted by start time; events with equal start keep their
/// relative order.
pub fn sort_by_start(events: Vec<Event>) -> (r: Vec<Event>)
    ensures
        stable_sort_of(r@, events@),
        r@.len() == events@.len(),
{
    let mut r: Vec<Event> = Vec::new();
    let mut i: usize = 0;
    while i < events.len()
        invariant
            i <= events@.len(),
            r@.len() == i,
            sorted_by_start(r@),
            forall|k: int| #[trigger] starting_at(r@, k) == starting_at(events@.take(i as int), k),
        decreases events@.len() - i,
    {
        let e = events[i].clone();
        let key = e.start_date.as_nanosecond();
        let mut p: usize = 0;
        while p < r.len() && r[p].start_date.as_nanosecond() <= key
            invariant
                p <= r@.len(),
                forall|j: int| 0 <= j < p ==> start_of(#[trigger] r@[j]) <= key,
            decreases r@.len() - p,
        {
            p = p + 1;
        }
        assert(forall|j: int| p <= j < r@.len() ==> start_of(#[trigger] r@[j]) > key) by {
            if p < r@.len() {
                assert(start_of(r@[p as int]) > key);
            }
        }
        let ghost old_r = r@;
        r.insert(p, e);
        proof {
            assert(events@.take(i as int + 1) =~= events@.take(i as int).push(events@[i as int]));
            assert forall|k: int| #[trigger] starting_at(r@, k) == starting_at(
                events@.take(i as int + 1),
                k,
            ) by {
                lemma_starting_at_insert(old_r, p as int, e, k);
                lemma_starting_at_push(events@.take(i as int), e, k);
            }
            assert forall|a: int, b: int| 0 <= a < b < r@.len() implies start_of(r@[a]) <= start_of(
                r@[b],
            ) by {
                if a < p && b > p {
                    assert(r@[a] == old_r[a]);
                    assert(r@[b] == old_r[b - 1]);
                } else if a < p && b == p {
                    assert(r@[a] == old_r[a]);
                } else if a == p {
                    assert(r@[b] == old_r[b - 1]);
                } else if b < p {
                    assert(r@[a] == old_r[a]);
                    assert(r@[b] == old_r[b]);
                } else {
                    assert(r@[a] == old_r[a - 1]);
                    assert(r@[b] == old_r[b - 1]);
                }
            }
        }
        i = i + 1;
    }
    proof {
        assert(events@.take(events@.len() as int) =~= events@);
    }
    r
}

proof fn lemma_count_in_start_class(s: Seq<Event>, e: Event)
    ensures
        s.to_multiset().count(e) == starting_at(s, start_of(e)).to_multiset().count(e),
    decreases s.len(),
{
    broadcast use vstd::seq_lib::to_multiset_build;

    if s.len() == 0 {
        reveal(Seq::filter);
        assert(starting_at(s, start_of(e)) =~= s);
    } else {
        let init = s.drop_last();
        lemma_count_in_start_class(init, e);
        assert(s =~= init.push(s.last()));
        lemma_starting_at_push(init, s.last(), start_of(e));
    }
}

/// A stable sort keeps exactly the events it was given: the sorted sequence
/// and the input hold the same events, each as often.
pub proof fn lemma_stable_sort_keeps_events(out: Seq<Event>, s: Seq<Event>)
    requires
        stable_sort_of(out, s),
    ensures
        out.to_multiset() == s.to_multiset(),
        sorted_by_start(out),
{
    assert forall|e: Event| out.to_multiset().count(e) == s.to_multiset().count(e) by {
        lemma_count_in_start_class(out, e);
        lemma_count_in_start_class(s, e);
        assert(starting_at(out, start_of(e)) == starting_at(s, start_of(e)));
    }
    assert(out.to_multiset() =~= s.to_multiset());
}

} // verus!
