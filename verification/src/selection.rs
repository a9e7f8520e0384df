//! Which stations a subscriber selected, and how the links in the database differ from them.

use vstd::prelude::*;

use crate::database::{station, user_station};

verus! {

/// `name` is one of `names`.
pub open spec fn is_one_of(names: Seq<String>, name: Seq<char>) -> bool {
    exists|i: int| 0 <= i < names.len() && (#[trigger] names[i])@ == name
}

/// `rows` holds a row with these columns.
pub open spec fn holds(rows: Seq<station::Model>, row: station::Row) -> bool {
    exists|i: int| 0 <= i < rows.len() && (#[trigger] rows[i])@ == row
}

/// `stations` holds a station with this id.
pub open spec fn has_id(stations: Seq<station::Model>, id: i32) -> bool {
    exists|i: int| 0 <= i < stations.len() && (#[trigger] stations[i]).id == id
}

/// The stations that carry one of `names`, in their own order.
pub open spec fn selected(stations: Seq<station::Model>, names: Seq<String>) -> Seq<
    station::Model,
> {
    stations.filter(|station: station::Model| is_one_of(names, station.name@))
}

/// The stations that `rows` does not hold, in their own order.
pub open spec fn unlisted(stations: Seq<station::Model>, rows: Seq<station::Model>) -> Seq<
    station::Model,
> {
    stations.filter(|station: station::Model| !holds(rows, station@))
}

/// The links to a station that is not among `stations`, in their own order.
pub open spec fn stale(
    links: Seq<user_station::Model>,
    stations: Seq<station::Model>,
) -> Seq<user_station::Model> {
    links.filter(|link: user_station::Model| !has_id(stations, link.station_id))
}

/// One link from the user to each of `stations`, in their order.
pub open spec fn links_to(user_id: i32, stations: Seq<station::Model>) -> Seq<user_station::Model> {
    stations.map_values(
        |station: station::Model| user_station::Model { user_id, station_id: station.id },
    )
}

/// Filtering one more element keeps what was kept before, and the element where it passes.
proof fn lemma_filter_next<A>(s: Seq<A>, pred: spec_fn(A) -> bool, n: int)
    requires
        0 <= n < s.len(),
    ensures
        s.take(n + 1).filter(pred) == if pred(s[n]) {
            s.take(n).filter(pred).push(s[n])
        } else {
            s.take(n).filter(pred)
        },
{
    reveal(Seq::filter);
    assert(s.take(n + 1).drop_last() =~= s.take(n));
    assert(s.take(n + 1).last() == s[n]);
}

/// Whether one of `names` is the name of `station`.
fn has_name_among(names: &[String], station: &station::Model) -> (result: bool)
    ensures
        result == is_one_of(names@, station.name@),
{
    for i in 0..names.len()
        invariant
            forall|j: int| 0 <= j < i ==> (#[trigger] names@[j])@ != station.name@,
    {
        if names[i] == station.name {
            assert(names@[i as int]@ == station.name@);
            return true;
        }
    }
    false
}

/// Whether `rows` holds `station`.
fn is_held_by(rows: &[station::Model], station: &station::Model) -> (result: bool)
    ensures
        result == holds(rows@, station@),
{
    for i in 0..rows.len()
        invariant
            forall|j: int| 0 <= j < i ==> (#[trigger] rows@[j])@ != station@,
    {
        if rows[i].is_same(station) {
            assert(rows@[i as int]@ == station@);
            return true;
        }
    }
    false
}

/// Whether `stations` holds a station with this id.
fn contains_id(stations: &[station::Model], id: i32) -> (result: bool)
    ensures
        result == has_id(stations@, id),
{
    for i in 0..stations.len()
        invariant
            forall|j: int| 0 <= j < i ==> (#[trigger] stations@[j]).id != id,
    {
        if stations[i].id == id {
            assert(stations@[i as int].id == id);
            return true;
        }
    }
    false
}

/// Keeps, of all stations, those that carry one of `names`.
pub fn get_stations_from_names(stations: Vec<station::Model>, names: &[String]) -> (result: Vec<
    station::Model,
>)
    ensures
        result@ == selected(stations@, names@),
{
    let ghost pred = |station: station::Model| is_one_of(names@, station.name@);
    let ghost all = stations@;
    let mut kept: Vec<station::Model> = Vec::new();
    assert(kept@ == all.take(0).filter(pred)) by {
        reveal(Seq::filter);
    }
    for station in it: stations.into_iter()
        invariant
            it.seq() == all,
            pred == (|station: station::Model| is_one_of(names@, station.name@)),
            kept@ == all.take(it.index()).filter(pred),
    {
        proof {
            lemma_filter_next(all, pred, it.index());
        }
        if has_name_among(names, &station) {
            kept.push(station);
        }
    }
    assert(all.take(all.len() as int) =~= all);
    kept
}

/// Takes out of `stations` those that the user already has.
pub fn filter_out_stations(
    stations: &mut Vec<station::Model>,
    already_selected_stations: &[station::Model],
)
    ensures
        final(stations)@ == unlisted(old(stations)@, already_selected_stations@),
{
    let ghost pred = |station: station::Model| !holds(already_selected_stations@, station@);
    let ghost all = stations@;
    let mut taken: Vec<station::Model> = Vec::new();
    std::mem::swap(stations, &mut taken);
    assert(stations@ == all.take(0).filter(pred)) by {
        reveal(Seq::filter);
    }
    for station in it: taken.into_iter()
        invariant
            it.seq() == all,
            pred == (|station: station::Model|
                !holds(already_selected_stations@, station@)),
            stations@ == all.take(it.index()).filter(pred),
    {
        proof {
            lemma_filter_next(all, pred, it.index());
        }
        if !is_held_by(already_selected_stations, &station) {
            stations.push(station);
        }
    }
    assert(all.take(all.len() as int) =~= all);
}

/// Of a user's links, those that have to go: their station is not among `stations`.
pub fn user_stations_not_in_list(
    user_stations: Vec<user_station::Model>,
    stations: &[station::Model],
) -> (result: Vec<user_station::Model>)
    ensures
        result@ == stale(user_stations@, stations@),
{
    let ghost pred = |link: user_station::Model| !has_id(stations@, link.station_id);
    let ghost all = user_stations@;
    let mut kept: Vec<user_station::Model> = Vec::new();
    assert(kept@ == all.take(0).filter(pred)) by {
        reveal(Seq::filter);
    }
    for link in it: user_stations.into_iter()
        invariant
            it.seq() == all,
            pred == (|link: user_station::Model| !has_id(stations@, link.station_id)),
            kept@ == all.take(it.index()).filter(pred),
    {
        proof {
            lemma_filter_next(all, pred, it.index());
        }
        if !contains_id(stations, link.station_id) {
            kept.push(link);
        }
    }
    assert(all.take(all.len() as int) =~= all);
    kept
}

/// The links to insert for a user who newly selected `stations`.
pub fn new_user_stations(user_id: i32, stations: &[station::Model]) -> (result: Vec<
    user_station::Model,
>)
    ensures
        result@ == links_to(user_id, stations@),
{
    let mut links: Vec<user_station::Model> = Vec::new();
    for i in 0..stations.len()
        invariant
            links@ == links_to(user_id, stations@).take(i as int),
    {
        links.push(user_station::Model { user_id, station_id: stations[i].id });
    }
    links
}

/// Filtering one element keeps it where it passes.
proof fn lemma_filter_one<A>(x: A, pred: spec_fn(A) -> bool)
    ensures
        seq![x].filter(pred) == if pred(x) {
            seq![x]
        } else {
            Seq::empty()
        },
{
    reveal(Seq::filter);
    let one = seq![x];
    assert(one.drop_last() =~= Seq::empty());
    assert(one.drop_last().filter(pred) =~= Seq::empty());
    assert(one.last() == x);
    assert(one.filter(pred) =~= if pred(x) {
        seq![x]
    } else {
        Seq::empty()
    });
}

/// Stations are selected one by one: of two lists in a row, the selection is that of the first and
/// then that of the second, and a single station is selected exactly where some name of the list,
/// at whatever place, is its name.
pub proof fn law_stations_are_selected_by_name(
    stations: Seq<station::Model>,
    more: Seq<station::Model>,
    names: Seq<String>,
    station: station::Model,
)
    ensures
        selected(stations + more, names) == selected(stations, names) + selected(more, names),
        selected(seq![station], names) == if exists|i: int|
            0 <= i < names.len() && (#[trigger] names[i])@ == station.name@ {
            seq![station]
        } else {
            Seq::empty()
        },
        selected(Seq::empty(), names) == Seq::<station::Model>::empty(),
{
    reveal(Seq::filter);
    let pred = |station: station::Model| is_one_of(names, station.name@);
    Seq::filter_distributes_over_add(stations, more, pred);
    lemma_filter_one(station, pred);
}

/// Every station whose name stands anywhere in the list is selected.
pub proof fn law_named_station_is_selected(
    stations: Seq<station::Model>,
    names: Seq<String>,
    k: int,
    i: int,
)
    requires
        0 <= k < stations.len(),
        0 <= i < names.len(),
        names[i]@ == stations[k].name@,
    ensures
        selected(stations, names).contains(stations[k]),
{
    let pred = |station: station::Model| is_one_of(names, station.name@);
    assert(pred(stations[k]));
    stations.lemma_filter_contains(pred, k);
}

/// A station that is selected is one of the stations, and its name stands in the list.
pub proof fn law_selected_station_is_named(
    stations: Seq<station::Model>,
    names: Seq<String>,
    k: int,
)
    requires
        0 <= k < selected(stations, names).len(),
    ensures
        stations.contains(selected(stations, names)[k]),
        exists|i: int|
            0 <= i < names.len() && (#[trigger] names[i])@ == selected(stations, names)[k].name@,
{
    let pred = |station: station::Model| is_one_of(names, station.name@);
    stations.lemma_filter_pred(pred, k);
    stations.lemma_filter_contains_rev(pred, selected(stations, names)[k]);
}

/// One more name in the list selects the stations that carry it, and takes away none.
pub proof fn law_one_more_name_selects_its_stations(
    stations: Seq<station::Model>,
    names: Seq<String>,
    name: String,
    station: station::Model,
)
    ensures
        selected(stations, names.push(name)).contains(station) <==> stations.contains(station) && (
        selected(stations, names).contains(station) || station.name@ == name@),
{
    let more = names.push(name);
    if selected(stations, more).contains(station) {
        let k = choose|k: int|
            0 <= k < selected(stations, more).len() && selected(stations, more)[k] == station;
        law_selected_station_is_named(stations, more, k);
        let i = choose|i: int| 0 <= i < more.len() && (#[trigger] more[i])@ == station.name@;
        if i < names.len() {
            let p = choose|p: int| 0 <= p < stations.len() && stations[p] == station;
            law_named_station_is_selected(stations, names, p, i);
        }
    }
    if stations.contains(station) {
        let p = choose|p: int| 0 <= p < stations.len() && stations[p] == station;
        if station.name@ == name@ {
            law_named_station_is_selected(stations, more, p, names.len() as int);
        }
        if selected(stations, names).contains(station) {
            let k = choose|k: int|
                0 <= k < selected(stations, names).len() && selected(stations, names)[k] == station;
            law_selected_station_is_named(stations, names, k);
            let i = choose|i: int| 0 <= i < names.len() && (#[trigger] names[i])@ == station.name@;
            assert(more[i] == names[i]);
            law_named_station_is_selected(stations, more, p, i);
        }
    }
}

/// Stations are taken out one by one: of two lists in a row, what is left is that of the first and
/// then that of the second, and a single station is taken out exactly where some row, at whatever
/// place, agrees with it in id and name.
pub proof fn law_listed_stations_are_taken_out(
    stations: Seq<station::Model>,
    more: Seq<station::Model>,
    rows: Seq<station::Model>,
    station: station::Model,
)
    ensures
        unlisted(stations + more, rows) == unlisted(stations, rows) + unlisted(more, rows),
        unlisted(seq![station], rows) == if exists|i: int|
            0 <= i < rows.len() && (#[trigger] rows[i]).id == station.id && rows[i].name@
                == station.name@ {
            Seq::empty()
        } else {
            seq![station]
        },
        unlisted(Seq::empty(), rows) == Seq::<station::Model>::empty(),
{
    reveal(Seq::filter);
    let pred = |station: station::Model| !holds(rows, station@);
    Seq::filter_distributes_over_add(stations, more, pred);
    lemma_filter_one(station, pred);
    if exists|i: int|
        0 <= i < rows.len() && (#[trigger] rows[i]).id == station.id && rows[i].name@
            == station.name@ {
        let i = choose|i: int|
            0 <= i < rows.len() && (#[trigger] rows[i]).id == station.id && rows[i].name@
                == station.name@;
        assert(rows[i]@ == station@);
    }
    if holds(rows, station@) {
        let i = choose|i: int| 0 <= i < rows.len() && (#[trigger] rows[i])@ == station@;
        assert(rows[i].id == station.id && rows[i].name@ == station.name@);
    }
}

/// Links are kept or go one by one: of two lists in a row, those that go are those of the first and
/// then those of the second, and a single link goes exactly where no station, at whatever place,
/// has the id that it leads to.
pub proof fn law_links_to_other_stations_go(
    links: Seq<user_station::Model>,
    more: Seq<user_station::Model>,
    stations: Seq<station::Model>,
    link: user_station::Model,
)
    ensures
        stale(links + more, stations) == stale(links, stations) + stale(more, stations),
        stale(seq![link], stations) == if exists|i: int|
            0 <= i < stations.len() && (#[trigger] stations[i]).id == link.station_id {
            Seq::empty()
        } else {
            seq![link]
        },
        stale(Seq::empty(), stations) == Seq::<user_station::Model>::empty(),
{
    reveal(Seq::filter);
    let pred = |link: user_station::Model| !has_id(stations, link.station_id);
    Seq::filter_distributes_over_add(links, more, pred);
    lemma_filter_one(link, pred);
}

/// A new link for each station, from the user to that station, in the order of the stations.
pub proof fn law_new_links_lead_to_the_stations(user_id: i32, stations: Seq<station::Model>)
    ensures
        links_to(user_id, stations).len() == stations.len(),
        forall|i: int|
            0 <= i < stations.len() ==> (#[trigger] links_to(user_id, stations)[i]).user_id
                == user_id && links_to(user_id, stations)[i].station_id == stations[i].id,
{
}

/// What it means that a list holds a name, a row or an id: it stands at some place of the list.
pub proof fn law_lists_hold_what_stands_in_them(
    names: Seq<String>,
    name: Seq<char>,
    stations: Seq<station::Model>,
    row: station::Row,
    id: i32,
)
    ensures
        is_one_of(names, name) <==> exists|i: int|
            0 <= i < names.len() && (#[trigger] names[i])@ == name,
        holds(stations, row) <==> exists|i: int|
            0 <= i < stations.len() && (#[trigger] stations[i]).id == row.id && stations[i].name@
                == row.name,
        has_id(stations, id) <==> exists|i: int|
            0 <= i < stations.len() && (#[trigger] stations[i]).id == id,
{
    if holds(stations, row) {
        let i = choose|i: int| 0 <= i < stations.len() && (#[trigger] stations[i])@ == row;
        assert(stations[i].id == row.id && stations[i].name@ == row.name);
    }
    if exists|i: int|
        0 <= i < stations.len() && (#[trigger] stations[i]).id == row.id && stations[i].name@
            == row.name {
        let i = choose|i: int|
            0 <= i < stations.len() && (#[trigger] stations[i]).id == row.id && stations[i].name@
                == row.name;
        assert(stations[i]@ == row);
    }
}

} // verus!
