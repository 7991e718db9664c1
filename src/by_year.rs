//! Grouping events by calendar year, in the order in which years are first
//! seen.
use crate::event::Event;
use indexmap::IndexMap;
use vstd::prelude::*;

verus! {

/// indexmap's `IndexMap`, an insertion-ordered map, carried as an opaque
/// value; what a map holds is read through [`year_groups`] and
/// `google::query_pairs`.
#[verifier::external_type_specification]
#[verifier::external_body]
#[verifier::reject_recursive_types(K)]
#[verifier::reject_recursive_types(V)]
#[verifier::reject_recursive_types(S)]
pub struct ExIndexMap<K, V, S>(IndexMap<K, V, S>);

/// Events grouped by year: years in the order in which they were first seen,
/// each with its events in the order in which they were given.
pub type EventsByYear = IndexMap<i16, Vec<Event>>;

/// The entries of a map of years to events, in the map's order.
pub uninterp spec fn year_groups(m: EventsByYear) -> Seq<(i16, Seq<Event>)>;

/// Relies on `IndexMap::new`: the new map is empty.
#[verifier::external_body]
fn new_year_map() -> (m: EventsByYear)
    ensures
        year_groups(m) == Seq::<(i16, Seq<Event>)>::empty(),
{
    IndexMap::new()
}

/// Relies on `IndexMap::get_index_of`: the position of `year` among the
/// keys, which are unique, or `None` where no key equals it.
#[verifier::external_body]
fn year_index(m: &EventsByYear, year: i16) -> (r: Option<usize>)
    ensures
        r matches Some(i) ==> i < year_groups(*m).len() && year_groups(*m)[i as int].0 == year,
        r is None ==> forall|i: int|
            0 <= i < year_groups(*m).len() ==> #[trigger] year_groups(*m)[i].0 != year,
{
    m.get_index_of(&year)
}

/// Relies on `IndexMut<usize>` for `IndexMap`: the value at position `i`
/// gets `e` pushed on; keys and other values stay.
#[verifier::external_body]
fn push_at(m: &mut EventsByYear, i: usize, e: Event)
    requires
        i < year_groups(*old(m)).len(),
    ensures
        year_groups(*final(m)) == year_groups(*old(m)).update(
            i as int,
            (year_groups(*old(m))[i as int].0, year_groups(*old(m))[i as int].1.push(e)),
        ),
{
    m[i].push(e)
}

/// Relies on `IndexMap::insert`: a key not yet present is appended last
/// with its value.
#[verifier::external_body]
fn insert_year(m: &mut EventsByYear, year: i16, events: Vec<Event>)
    requires
        forall|i: int|
            0 <= i < year_groups(*old(m)).len() ==> #[trigger] year_groups(*old(m))[i].0 != year,
    ensures
        year_groups(*final(m)) == year_groups(*old(m)).push((year, events@)),
{
    m.insert(year, events);
}

/// The years of `ys` without repetition, in the order of first occurrence.
pub open spec fn distinct_years(ys: Seq<i16>) -> Seq<i16>
    decreases ys.len(),
{
    if ys.len() == 0 {
        Seq::empty()
    } else {
        let d = distinct_years(ys.drop_last());
        if d.contains(ys.last()) {
            d
        } else {
            d.push(ys.last())
        }
    }
}

/// The events `es[i]` with `ys[i] == y`, in their order in `es`.
pub open spec fn events_of_year(es: Seq<Event>, ys: Seq<i16>, y: i16) -> Seq<Event>
    decreases es.len(),
{
    if es.len() == 0 || ys.len() == 0 {
        Seq::empty()
    } else {
        let r = events_of_year(es.drop_last(), ys.drop_last(), y);
        if ys.last() == y {
            r.push(es.last())
        } else {
            r
        }
    }
}

/// The grouping of `es` by the years `ys` (`ys[i]` is the year of `es[i]`):
/// one entry per distinct year in order of first occurrence, with the events
/// of that year in their order in `es`.
pub open spec fn grouped(es: Seq<Event>, ys: Seq<i16>) -> Seq<(i16, Seq<Event>)> {
    Seq::new(
        distinct_years(ys).len(),
        |i: int| (distinct_years(ys)[i], events_of_year(es, ys, distinct_years(ys)[i])),
    )
}

proof fn lemma_distinct_contains(ys: Seq<i16>, y: i16)
    ensures
        distinct_years(ys).contains(y) <==> ys.contains(y),
    decreases ys.len(),
{
    if ys.len() > 0 {
        let init = ys.drop_last();
        let d = distinct_years(init);
        lemma_distinct_contains(init, y);
        assert(ys.contains(y) <==> (init.contains(y) || ys.last() == y)) by {
            if init.contains(y) {
                let j = choose|j: int| 0 <= j < init.len() && init[j] == y;
                assert(ys[j] == y);
            }
            if ys.last() == y {
                assert(ys[ys.len() - 1] == y);
            }
            if ys.contains(y) && ys.last() != y {
                let j = choose|j: int| 0 <= j < ys.len() && ys[j] == y;
                assert(init[j] == y);
            }
        }
        assert(d.push(ys.last()).contains(y) <==> (d.contains(y) || ys.last() == y)) by {
            if d.contains(y) {
                let j = choose|j: int| 0 <= j < d.len() && d[j] == y;
                assert(d.push(ys.last())[j] == y);
            }
            if ys.last() == y {
                assert(d.push(ys.last())[d.len() as int] == y);
            }
            if d.push(ys.last()).contains(y) && ys.last() != y {
                let j = choose|j: int| 0 <= j < d.len() + 1 && d.push(ys.last())[j] == y;
                assert(d[j] == y);
            }
        }
    }
}

proof fn lemma_distinct_unique(ys: Seq<i16>)
    ensures
        distinct_years(ys).no_duplicates(),
    decreases ys.len(),
{
    if ys.len() > 0 {
        lemma_distinct_unique(ys.drop_last());
        let d = distinct_years(ys.drop_last());
        if !d.contains(ys.last()) {
            assert forall|i: int, j: int|
                0 <= i < d.len() + 1 && 0 <= j < d.len() + 1 && i != j implies d.push(ys.last())[i]
                != d.push(ys.last())[j] by {
                if i == d.len() {
                    assert(d[j] != ys.last());
                } else if j == d.len() {
                    assert(d[i] != ys.last());
                }
            }
        }
    }
}

proof fn lemma_events_of_absent_year(es: Seq<Event>, ys: Seq<i16>, y: i16)
    requires
        !ys.contains(y),
    ensures
        events_of_year(es, ys, y) == Seq::<Event>::empty(),
    decreases es.len(),
{
    if es.len() > 0 && ys.len() > 0 {
        assert(!ys.drop_last().contains(y)) by {
            if ys.drop_last().contains(y) {
                let j = choose|j: int| 0 <= j < ys.drop_last().len() && ys.drop_last()[j] == y;
                assert(ys[j] == y);
            }
        }
        lemma_events_of_absent_year(es.drop_last(), ys.drop_last(), y);
    }
}

/// Groups `events` by the years `years`, where `years[i]` is the year of
/// `events[i]`: one entry per distinct year in order of first occurrence,
/// each holding the events of that year in their order in `events`.
pub fn group_by_year(events: Vec<Event>, years: &Vec<i16>) -> (r: EventsByYear)
    requires
        events@.len() == years@.len(),
    ensures
        year_groups(r) == grouped(events@, years@),
{
    let mut m = new_year_map();
    let mut i: usize = 0;
    proof {
        assert(grouped(events@.take(0), years@.take(0)) =~= Seq::<(i16, Seq<Event>)>::empty());
    }
    while i < events.len()
        invariant
            i <= events@.len(),
            events@.len() == years@.len(),
            year_groups(m) == grouped(events@.take(i as int), years@.take(i as int)),
        decreases events@.len() - i,
    {
        let y = years[i];
        let e = events[i].clone();
        let ghost es = events@.take(i as int);
        let ghost ys = years@.take(i as int);
        let ghost es1 = events@.take(i as int + 1);
        let ghost ys1 = years@.take(i as int + 1);
        proof {
            assert(es1.drop_last() =~= es);
            assert(ys1.drop_last() =~= ys);
            assert(es1.last() == e);
            assert(ys1.last() == y);
        }
        match year_index(&m, y) {
            Some(j) => {
                proof {
                    assert(distinct_years(ys).contains(y)) by {
                        assert(distinct_years(ys)[j as int] == y);
                    }
                    assert(distinct_years(ys1) == distinct_years(ys));
                    lemma_distinct_unique(ys);
                }
                push_at(&mut m, j, e);
                proof {
                    let d = distinct_years(ys);
                    assert forall|k: int| 0 <= k < d.len() implies #[trigger] year_groups(m)[k]
                        == grouped(es1, ys1)[k] by {
                        if k != j {
                            assert(d[k] != d[j as int]);
                        }
                    }
                    assert(year_groups(m) =~= grouped(es1, ys1));
                }
            },
            None => {
                proof {
                    assert(!distinct_years(ys).contains(y)) by {
                        if distinct_years(ys).contains(y) {
                            let k = choose|k: int|
                                0 <= k < distinct_years(ys).len() && distinct_years(ys)[k] == y;
                            assert(year_groups(m)[k].0 == y);
                        }
                    }
                    lemma_distinct_contains(ys, y);
                    lemma_events_of_absent_year(es, ys, y);
                    assert(distinct_years(ys1) == distinct_years(ys).push(y));
                }
                let mut group: Vec<Event> = Vec::new();
                group.push(e);
                insert_year(&mut m, y, group);
                proof {
                    assert(events_of_year(es1, ys1, y) =~= seq![e]);
                    assert(year_groups(m) =~= grouped(es1, ys1));
                }
            },
        }
        i = i + 1;
    }
    proof {
        assert(events@.take(events@.len() as int) =~= events@);
        assert(years@.take(years@.len() as int) =~= years@);
    }
    m
}

/// The positions `i` with `ys[i] == y`, in increasing order.
pub open spec fn year_positions(ys: Seq<i16>, y: i16) -> Seq<int>
    decreases ys.len(),
{
    if ys.len() == 0 {
        Seq::empty()
    } else {
        let r = year_positions(ys.drop_last(), y);
        if ys.last() == y {
            r.push(ys.len() - 1)
        } else {
            r
        }
    }
}

proof fn lemma_year_positions(es: Seq<Event>, ys: Seq<i16>, y: i16)
    requires
        es.len() == ys.len(),
    ensures
        events_of_year(es, ys, y).len() == year_positions(ys, y).len(),
        forall|a: int|
            0 <= a < year_positions(ys, y).len() ==> 0 <= #[trigger] year_positions(ys, y)[a]
                < ys.len() && ys[year_positions(ys, y)[a]] == y && es[year_positions(ys, y)[a]]
                == events_of_year(es, ys, y)[a],
        forall|a: int, b: int|
            0 <= a < b < year_positions(ys, y).len() ==> #[trigger] year_positions(ys, y)[a]
                < #[trigger] year_positions(ys, y)[b],
    decreases es.len(),
{
    if es.len() > 0 {
        lemma_year_positions(es.drop_last(), ys.drop_last(), y);
    }
}

/// Grouping keeps order: two events of one group stand in the group in the
/// order in which they stand in the input, and both are of the group's year.
pub proof fn lemma_grouping_keeps_order(es: Seq<Event>, ys: Seq<i16>, g: int, a: int, b: int)
    requires
        es.len() == ys.len(),
        0 <= g < grouped(es, ys).len(),
        0 <= a < b < grouped(es, ys)[g].1.len(),
    ensures
        exists|i: int, j: int|
            0 <= i < j < es.len() && ys[i] == grouped(es, ys)[g].0 && ys[j] == grouped(es, ys)[g].0
                && es[i] == grouped(es, ys)[g].1[a] && es[j] == grouped(es, ys)[g].1[b],
{
    let y = grouped(es, ys)[g].0;
    lemma_year_positions(es, ys, y);
    let p = year_positions(ys, y);
    assert(p[a] < p[b]);
    assert(0 <= p[a] < p[b] < es.len() && ys[p[a]] == y && ys[p[b]] == y && es[p[a]]
        == grouped(es, ys)[g].1[a] && es[p[b]] == grouped(es, ys)[g].1[b]);
}

} // verus!
