//! What an update does to the database as a whole.

use vstd::prelude::*;

use crate::database::{station, user_station};
use crate::error::{Cause, Error};
use crate::exchange::Replied;
use crate::selection::{has_id, holds, is_one_of, links_to, selected, stale, unlisted};
use crate::store::{is_list_of, Store};
use crate::update::Update;

verus! {

/// A station with this id carries one of `names`.
pub open spec fn is_wanted(store: Store, names: Seq<String>, id: i32) -> bool {
    exists|row: station::Row| #[trigger]
        store.stations.contains(row) && row.id == id && is_one_of(names, row.name)
}

/// The user has the email address, and is new where no user had it; the user is linked to exactly
/// the stations that carry one of `names`; and nothing else has changed.
pub open spec fn is_in_line(
    before: Store,
    after: Store,
    names: Seq<String>,
    email: Seq<char>,
    user_id: i32,
) -> bool {
    &&& after.stations == before.stations
    &&& after.lines == before.lines
    &&& if before.has_email(email) {
        &&& before.users.contains_key(user_id)
        &&& before.users[user_id] == email
        &&& after.users == before.users
    } else {
        &&& !before.users.contains_key(user_id)
        &&& after.users == before.users.insert(user_id, email)
    }
    &&& forall|link: user_station::Model| #[trigger]
        after.links.contains(link) <==> if link.user_id == user_id {
            is_wanted(before, names, link.station_id)
        } else {
            before.links.contains(link)
        }
}

/// An update against a database: the contents of the database and the state of the update at each
/// moment, and the replies in between.
pub open spec fn is_run(stores: Seq<Store>, updates: Seq<Update>, replies: Seq<Replied>) -> bool {
    &&& stores.len() == replies.len() + 1
    &&& updates.len() == replies.len() + 1
    &&& forall|i: int|
        0 <= i < replies.len() ==> is_step(
            stores[i],
            updates[i],
            #[trigger] replies[i],
            stores[i + 1],
            updates[i + 1],
        )
}

/// One request, served, and what the update makes of the reply.
pub open spec fn is_step(
    store: Store,
    update: Update,
    reply: Replied,
    after: Store,
    next: Update,
) -> bool {
    &&& update.request() matches Some(request) && store.serves(request, reply, after)
    &&& next == update.next(reply)
}

/// `stations` lists the stations that carry one of `names`.
spec fn is_selection(store: Store, names: Seq<String>, stations: Seq<station::Model>) -> bool {
    &&& forall|i: int, j: int|
        0 <= i < j < stations.len() ==> (#[trigger] stations[i]).id != (#[trigger] stations[j]).id
    &&& forall|row: station::Row| #[trigger]
        holds(stations, row) <==> store.stations.contains(row) && is_one_of(names, row.name)
}

/// The user has the email address.
spec fn is_user(store: Store, email: Seq<char>, user_id: i32) -> bool {
    store.users.contains_key(user_id) && store.users[user_id] == email
}

/// Of the user's links, those to stations that are not selected are gone, but for `links`.
spec fn is_cleared(
    before: Store,
    now: Store,
    user_id: i32,
    stations: Seq<station::Model>,
    links: Seq<user_station::Model>,
) -> bool {
    &&& now == (Store { links: now.links, ..before })
    &&& links.no_duplicates()
    &&& forall|link: user_station::Model| #[trigger]
        links.contains(link) ==> before.links.contains(link) && link.user_id == user_id && !has_id(
            stations,
            link.station_id,
        )
    &&& forall|link: user_station::Model| #[trigger]
        now.links.contains(link) <==> before.links.contains(link) && (link.user_id != user_id
            || has_id(stations, link.station_id) || links.contains(link))
}

/// What holds at each moment of an update.
spec fn is_on_its_way(
    before: Store,
    now: Store,
    names: Seq<String>,
    email: Seq<char>,
    update: Update,
) -> bool {
    match update {
        Update::ListingStations(n, e) => now == before && n == names && e == email,
        Update::FindingUser(stations, e) => {
            &&& now == before
            &&& e == email
            &&& is_selection(before, names, stations)
        },
        Update::ListingLinks(user_id, stations) => {
            &&& now == before
            &&& is_user(before, email, user_id)
            &&& is_selection(before, names, stations)
        },
        Update::DeletingLinks(user_id, stations, links) => {
            &&& is_user(before, email, user_id)
            &&& is_selection(before, names, stations)
            &&& links.len() > 0
            &&& is_cleared(before, now, user_id, stations, links)
        },
        Update::ListingSelected(user_id, stations) => {
            &&& is_user(before, email, user_id)
            &&& is_selection(before, names, stations)
            &&& is_cleared(before, now, user_id, stations, Seq::empty())
        },
        Update::InsertingUser(stations, e) => {
            &&& now == before
            &&& e == email
            &&& !before.has_email(email)
            &&& is_selection(before, names, stations)
        },
        Update::InsertingLinks(user_id, links) => {
            &&& now.users.contains_key(user_id)
            &&& links.no_duplicates()
            &&& forall|link: user_station::Model| #[trigger]
                links.contains(link) ==> link.user_id == user_id && !now.links.contains(link)
                    && before.has_station(link.station_id)
            &&& forall|link: user_station::Model| #[trigger]
                before.links.contains(link) && is_wanted(before, names, link.station_id)
                    ==> now.links.contains(link)
            &&& is_in_line(
                before,
                Store { links: now.links.union(links.to_set()), ..now },
                names,
                email,
                user_id,
            )
        },
        Update::Finished(result) => {
            &&& result is Ok
            &&& exists|user_id: i32| is_in_line(before, now, names, email, user_id)
        },
    }
}

/// What is kept of a list is what passes, and rows that were apart stay apart.
proof fn lemma_kept_rows(rows: Seq<station::Model>, pred: spec_fn(station::Model) -> bool)
    requires
        forall|i: int, j: int|
            0 <= i < j < rows.len() ==> (#[trigger] rows[i])@ != (#[trigger] rows[j])@,
    ensures
        forall|i: int, j: int|
            0 <= i < j < rows.filter(pred).len() ==> (#[trigger] rows.filter(pred)[i])@ != (
            #[trigger] rows.filter(pred)[j])@,
        forall|i: int|
            0 <= i < rows.filter(pred).len() ==> pred(#[trigger] rows.filter(pred)[i])
                && rows.contains(rows.filter(pred)[i]),
        forall|i: int|
            0 <= i < rows.len() && pred(#[trigger] rows[i]) ==> rows.filter(pred).contains(rows[i]),
    decreases rows.len(),
{
    reveal(Seq::filter);
    if rows.len() > 0 {
        let init = rows.drop_last();
        let kept = rows.filter(pred);
        lemma_kept_rows(init, pred);
        assert forall|i: int| 0 <= i < init.filter(pred).len() implies rows.contains(
            #[trigger] init.filter(pred)[i],
        ) && init.filter(pred)[i]@ != rows.last()@ by {
            let j = choose|j: int| 0 <= j < init.len() && init[j] == init.filter(pred)[i];
            assert(rows[j] == init.filter(pred)[i]);
        }
        assert forall|i: int| 0 <= i < rows.len() && pred(#[trigger] rows[i]) implies kept.contains(
            rows[i],
        ) by {
            if i < init.len() {
                assert(init[i] == rows[i]);
                let j = choose|j: int|
                    0 <= j < init.filter(pred).len() && init.filter(pred)[j] == rows[i];
                assert(kept[j] == rows[i]);
            } else {
                assert(kept.last() == rows[i]);
            }
        }
        assert(rows.contains(rows.last()));
    }
}

/// The selection among all stations is the selection in the database.
proof fn lemma_selection(store: Store, names: Seq<String>, all: Seq<station::Model>)
    requires
        store.is_consistent(),
        is_list_of(all, store.stations),
    ensures
        is_selection(store, names, selected(all, names)),
{
    let pred = |station: station::Model| is_one_of(names, station.name@);
    let kept = selected(all, names);
    lemma_kept_rows(all, pred);
    assert forall|row: station::Row| #[trigger]
        holds(kept, row) <==> store.stations.contains(row) && is_one_of(names, row.name) by {
        if holds(kept, row) {
            let i = choose|i: int| 0 <= i < kept.len() && (#[trigger] kept[i])@ == row;
            let j = choose|j: int| 0 <= j < all.len() && all[j] == kept[i];
            assert(all[j]@ == row);
            assert(holds(all, row));
        }
        if store.stations.contains(row) && is_one_of(names, row.name) {
            assert(holds(all, row));
            let j = choose|j: int| 0 <= j < all.len() && (#[trigger] all[j])@ == row;
            assert(kept.contains(all[j]));
            let i = choose|i: int| 0 <= i < kept.len() && kept[i] == all[j];
            assert(kept[i]@ == row);
        }
    }
    assert forall|i: int, j: int| 0 <= i < j < kept.len() implies (#[trigger] kept[i]).id != (
    #[trigger] kept[j]).id by {
        assert(holds(kept, kept[i]@));
        assert(holds(kept, kept[j]@));
        assert(store.stations.contains(kept[i]@) && store.stations.contains(kept[j]@));
    }
}

/// A selected id is one that is wanted.
proof fn lemma_selected_ids(
    store: Store,
    names: Seq<String>,
    stations: Seq<station::Model>,
    id: i32,
)
    requires
        is_selection(store, names, stations),
    ensures
        has_id(stations, id) <==> is_wanted(store, names, id),
{
    if has_id(stations, id) {
        let i = choose|i: int| 0 <= i < stations.len() && (#[trigger] stations[i]).id == id;
        assert(holds(stations, stations[i]@));
        assert(store.stations.contains(stations[i]@));
    }
    if is_wanted(store, names, id) {
        let row = choose|row: station::Row| #[trigger]
            store.stations.contains(row) && row.id == id && is_one_of(names, row.name);
        assert(holds(stations, row));
        let i = choose|i: int| 0 <= i < stations.len() && (#[trigger] stations[i])@ == row;
        assert(stations[i].id == id);
    }
}

/// The links to a list of stations with different ids are different, one for each id.
proof fn lemma_links_to(user_id: i32, stations: Seq<station::Model>)
    requires
        forall|i: int, j: int|
            0 <= i < j < stations.len() ==> (#[trigger] stations[i]).id != (
            #[trigger] stations[j]).id,
    ensures
        links_to(user_id, stations).no_duplicates(),
        forall|link: user_station::Model| #[trigger]
            links_to(user_id, stations).contains(link) <==> link.user_id == user_id && has_id(
                stations,
                link.station_id,
            ),
{
    let links = links_to(user_id, stations);
    assert forall|i: int, j: int| 0 <= i < links.len() && 0 <= j < links.len() && i != j implies
        links[i] != links[j] by {
        assert(links[i].station_id == stations[i].id);
        assert(links[j].station_id == stations[j].id);
    }
    assert forall|link: user_station::Model| #[trigger]
        links.contains(link) <==> link.user_id == user_id && has_id(stations, link.station_id) by {
        if links.contains(link) {
            let i = choose|i: int| 0 <= i < links.len() && links[i] == link;
            assert(stations[i].id == link.station_id);
        }
        if link.user_id == user_id && has_id(stations, link.station_id) {
            let i = choose|i: int|
                0 <= i < stations.len() && (#[trigger] stations[i]).id == link.station_id;
            assert(links[i] == link);
        }
    }
}

/// Of the links of a user, exactly the stale ones are to go.
proof fn lemma_stale(
    before: Store,
    user_id: i32,
    stations: Seq<station::Model>,
    links: Seq<user_station::Model>,
)
    requires
        before.is_list_of_links(user_id, links),
    ensures
        is_cleared(before, before, user_id, stations, stale(links, stations)),
{
    let pred = |link: user_station::Model| !has_id(stations, link.station_id);
    let kept = stale(links, stations);
    lemma_filter_no_duplicates(links, pred);
    assert forall|link: user_station::Model| #[trigger]
        kept.contains(link) <==> links.contains(link) && !has_id(stations, link.station_id) by {
        if kept.contains(link) {
            links.lemma_filter_contains_rev(pred, link);
            let i = choose|i: int| 0 <= i < kept.len() && kept[i] == link;
            links.lemma_filter_pred(pred, i);
        }
        if links.contains(link) && !has_id(stations, link.station_id) {
            let i = choose|i: int| 0 <= i < links.len() && links[i] == link;
            assert(pred(links[i]));
            links.lemma_filter_contains(pred, i);
        }
    }
}

/// Filtering makes no duplicates.
proof fn lemma_filter_no_duplicates<A>(s: Seq<A>, pred: spec_fn(A) -> bool)
    requires
        s.no_duplicates(),
    ensures
        s.filter(pred).no_duplicates(),
    decreases s.len(),
{
    reveal(Seq::filter);
    if s.len() > 0 {
        let init = s.drop_last();
        lemma_filter_no_duplicates(init, pred);
        assert(!init.contains(s.last()));
        if init.filter(pred).contains(s.last()) {
            init.lemma_filter_contains_rev(pred, s.last());
        }
    }
}

/// Once the stale links are gone, the links that are missing are those to the selected stations
/// that the user is not linked to yet.
proof fn lemma_missing_links(
    before: Store,
    now: Store,
    names: Seq<String>,
    email: Seq<char>,
    user_id: i32,
    stations: Seq<station::Model>,
    already: Seq<station::Model>,
)
    requires
        before.is_consistent(),
        is_user(before, email, user_id),
        is_selection(before, names, stations),
        is_cleared(before, now, user_id, stations, Seq::empty()),
        is_list_of(already, now.selected_by(user_id)),
    ensures
        is_on_its_way(
            before,
            now,
            names,
            email,
            Update::InsertingLinks(user_id, links_to(user_id, unlisted(stations, already))),
        ),
{
    let pred = |station: station::Model| !holds(already, station@);
    let missing = unlisted(stations, already);
    assert forall|i: int, j: int| 0 <= i < j < stations.len() implies (#[trigger] stations[i])@ != (
    #[trigger] stations[j])@ by {
        assert(stations[i].id != stations[j].id);
    }
    lemma_kept_rows(stations, pred);
    assert forall|i: int, j: int| 0 <= i < j < missing.len() implies (#[trigger] missing[i]).id != (
    #[trigger] missing[j]).id by {
        let a = choose|a: int| 0 <= a < stations.len() && stations[a] == missing[i];
        let b = choose|b: int| 0 <= b < stations.len() && stations[b] == missing[j];
        assert(missing[i]@ != missing[j]@);
        assert(a != b);
        assert(stations[a].id != stations[b].id);
    }
    assert forall|id: i32| #[trigger]
        has_id(missing, id) <==> has_id(stations, id) && !now.links.contains(
            user_station::Model { user_id, station_id: id },
        ) by {
        if has_id(missing, id) {
            let i = choose|i: int| 0 <= i < missing.len() && (#[trigger] missing[i]).id == id;
            let a = choose|a: int| 0 <= a < stations.len() && stations[a] == missing[i];
            assert(stations[a].id == id);
            assert(pred(missing[i]));
            assert(holds(stations, stations[a]@));
            assert(!now.selected_by(user_id).contains(missing[i]@));
        }
        if has_id(stations, id) && !now.links.contains(
            user_station::Model { user_id, station_id: id },
        ) {
            let a = choose|a: int| 0 <= a < stations.len() && (#[trigger] stations[a]).id == id;
            assert(!now.selected_by(user_id).contains(stations[a]@));
            assert(!holds(already, stations[a]@));
            assert(pred(stations[a]));
            assert(missing.contains(stations[a]));
            let i = choose|i: int| 0 <= i < missing.len() && missing[i] == stations[a];
            assert(missing[i].id == id);
        }
    }
    lemma_links_to(user_id, missing);
    let links = links_to(user_id, missing);
    let after = Store { links: now.links.union(links.to_set()), ..now };
    assert forall|link: user_station::Model| #[trigger]
        after.links.contains(link) <==> if link.user_id == user_id {
            is_wanted(before, names, link.station_id)
        } else {
            before.links.contains(link)
        } by {
        lemma_selected_ids(before, names, stations, link.station_id);
        assert(links.to_set().contains(link) <==> links.contains(link));
        if link.user_id == user_id {
            assert(link == user_station::Model { user_id, station_id: link.station_id });
        }
    }
    assert forall|link: user_station::Model| #[trigger]
        links.contains(link) implies link.user_id == user_id && !now.links.contains(link)
        && before.has_station(link.station_id) by {
        assert(link == user_station::Model { user_id, station_id: link.station_id });
        lemma_selected_ids(before, names, stations, link.station_id);
    }
    assert forall|link: user_station::Model| #[trigger]
        before.links.contains(link) && is_wanted(
            before,
            names,
            link.station_id,
        ) implies now.links.contains(link) by {
        lemma_selected_ids(before, names, stations, link.station_id);
    }
    assert(before.has_email(email));
}

/// For a new user, the links that are missing are those to all selected stations.
proof fn lemma_new_links(
    before: Store,
    names: Seq<String>,
    email: Seq<char>,
    user_id: i32,
    stations: Seq<station::Model>,
)
    requires
        before.is_consistent(),
        !before.has_email(email),
        !before.users.contains_key(user_id),
        is_selection(before, names, stations),
    ensures
        is_on_its_way(
            before,
            Store { users: before.users.insert(user_id, email), ..before },
            names,
            email,
            Update::InsertingLinks(user_id, links_to(user_id, stations)),
        ),
{
    lemma_links_to(user_id, stations);
    let links = links_to(user_id, stations);
    let after = before.links.union(links.to_set());
    assert forall|link: user_station::Model| #[trigger]
        after.contains(link) <==> if link.user_id == user_id {
            is_wanted(before, names, link.station_id)
        } else {
            before.links.contains(link)
        } by {
        lemma_selected_ids(before, names, stations, link.station_id);
        assert(links.to_set().contains(link) <==> links.contains(link));
    }
    assert forall|link: user_station::Model| #[trigger]
        links.contains(link) implies link.user_id == user_id && !before.links.contains(link)
        && before.has_station(link.station_id) by {
        lemma_selected_ids(before, names, stations, link.station_id);
    }
}

/// One exchange keeps an update on its way.
proof fn lemma_step(
    before: Store,
    now: Store,
    names: Seq<String>,
    email: Seq<char>,
    update: Update,
    reply: Replied,
    after: Store,
)
    requires
        before.is_consistent(),
        is_on_its_way(before, now, names, email, update),
        is_step(now, update, reply, after, update.next(reply)),
    ensures
        is_on_its_way(before, after, names, email, update.next(reply)),
{
    match update {
        Update::ListingStations(_, _) => {
            lemma_selection(before, names, reply->Stations_0);
        },
        Update::FindingUser(_, _) => {},
        Update::ListingLinks(user_id, stations) => {
            lemma_stale(before, user_id, stations, reply->UserStations_0);
            let links = stale(reply->UserStations_0, stations);
            if links.len() == 0 {
                assert(links =~= Seq::empty());
            }
        },
        Update::DeletingLinks(user_id, stations, links) => {
            let rest = links.skip(1);
            assert forall|link: user_station::Model| #[trigger]
                rest.contains(link) <==> links.contains(link) && link != links[0] by {
                if rest.contains(link) {
                    let i = choose|i: int| 0 <= i < rest.len() && rest[i] == link;
                    assert(links[i + 1] == link);
                }
                if links.contains(link) && link != links[0] {
                    let i = choose|i: int| 0 <= i < links.len() && links[i] == link;
                    assert(rest[i - 1] == link);
                }
            }
            assert(links.contains(links[0]));
            if rest.len() == 0 {
                assert(rest =~= Seq::empty());
            }
        },
        Update::ListingSelected(user_id, stations) => {
            lemma_missing_links(before, now, names, email, user_id, stations, reply->Stations_0);
        },
        Update::InsertingUser(stations, _) => {
            lemma_new_links(before, names, email, reply->Inserted_0.id, stations);
        },
        Update::InsertingLinks(user_id, links) => {
            assert(forall|link: user_station::Model| #[trigger]
                links.contains(link) ==> now.has_station(link.station_id)) by {
                assert(now.stations == before.stations);
                assert(forall|id: i32| before.has_station(id) ==> #[trigger] now.has_station(id));
            }
            assert(now.accepts(update.request()->0));
            assert(is_in_line(before, after, names, email, user_id));
        },
        Update::Finished(_) => {},
    }
}

/// The first exchanges of a run leave the update on its way.
proof fn lemma_run(
    names: Seq<String>,
    email: Seq<char>,
    stores: Seq<Store>,
    updates: Seq<Update>,
    replies: Seq<Replied>,
    n: int,
)
    requires
        is_run(stores, updates, replies),
        stores[0].is_consistent(),
        updates[0] == Update::start(names, email),
        0 <= n <= replies.len(),
    ensures
        is_on_its_way(stores[0], stores[n], names, email, updates[n]),
    decreases n,
{
    if n > 0 {
        lemma_run(names, email, stores, updates, replies, n - 1);
        let reply = replies[n - 1];
        assert(is_step(
            stores[n - 1],
            updates[n - 1],
            reply,
            stores[n - 1 + 1],
            updates[n - 1 + 1],
        ));
        lemma_step(stores[0], stores[n - 1], names, email, updates[n - 1], reply, stores[n]);
    }
}

/// An update that ends against a consistent database succeeds. Afterwards the user with the email
/// address, new or not, is linked to exactly the stations of the selected names, nothing else has
/// changed, and the database is still consistent.
pub proof fn law_update_brings_links_in_line(
    names: Seq<String>,
    email: Seq<char>,
    stores: Seq<Store>,
    updates: Seq<Update>,
    replies: Seq<Replied>,
)
    requires
        is_run(stores, updates, replies),
        stores[0].is_consistent(),
        updates[0] == Update::start(names, email),
        updates.last() is Finished,
    ensures
        updates.last() == Update::Finished(Ok(())),
        exists|user_id: i32| is_in_line(stores[0], stores.last(), names, email, user_id),
        stores.last().is_consistent(),
{
    lemma_run(names, email, stores, updates, replies, replies.len() as int);
    let user_id = choose|user_id: i32|
        is_in_line(stores[0], stores.last(), names, email, user_id);
    match updates.last() {
        Update::Finished(Ok(unit)) => {
            assert(unit == ());
        },
        _ => {},
    }
    assert forall|link: user_station::Model| #[trigger]
        stores.last().links.contains(link) implies stores.last().users.contains_key(
        link.user_id,
    ) by {
        if link.user_id != user_id {
            assert(stores[0].links.contains(link));
        }
    }
}

/// At each moment of an update, finished or not, the stations, the lines, and the users but for the
/// one with the email address are as they were, and so are the links of the other users.
pub proof fn law_update_touches_one_user(
    names: Seq<String>,
    email: Seq<char>,
    stores: Seq<Store>,
    updates: Seq<Update>,
    replies: Seq<Replied>,
    n: int,
)
    requires
        is_run(stores, updates, replies),
        stores[0].is_consistent(),
        updates[0] == Update::start(names, email),
        0 <= n < stores.len(),
    ensures
        stores[n].stations == stores[0].stations,
        stores[n].lines == stores[0].lines,
        forall|id: i32| #[trigger]
            stores[0].users.contains_key(id) ==> stores[n].users.contains_key(id)
                && stores[n].users[id] == stores[0].users[id],
        forall|id: i32| #[trigger]
            stores[n].users.contains_key(id) ==> stores[0].users.contains_key(id)
                || stores[n].users[id] == email,
        forall|link: user_station::Model|
            stores[0].users.contains_key(link.user_id) && stores[0].users[link.user_id] != email
                ==> (#[trigger] stores[n].links.contains(link) <==> stores[0].links.contains(link)),
{
    lemma_run(names, email, stores, updates, replies, n);
    match updates[n] {
        Update::InsertingLinks(user_id, links) => {
            assert forall|link: user_station::Model|
                link.user_id != user_id implies (#[trigger] stores[n].links.contains(link)
                <==> stores[0].links.contains(link)) by {
                let after = Store { links: stores[n].links.union(links.to_set()), ..stores[n] };
                assert(is_in_line(stores[0], after, names, email, user_id));
                assert(after.links.contains(link) <==> stores[0].links.contains(link));
                assert(links.to_set().contains(link) <==> links.contains(link));
            }
        },
        _ => {},
    }
}

/// At each moment of an update, finished or not, a link to a station that stays selected is there,
/// where it was there before.
pub proof fn law_update_keeps_wanted_links(
    names: Seq<String>,
    email: Seq<char>,
    stores: Seq<Store>,
    updates: Seq<Update>,
    replies: Seq<Replied>,
    n: int,
    link: user_station::Model,
)
    requires
        is_run(stores, updates, replies),
        stores[0].is_consistent(),
        updates[0] == Update::start(names, email),
        0 <= n < stores.len(),
        stores[0].links.contains(link),
        is_wanted(stores[0], names, link.station_id),
    ensures
        stores[n].links.contains(link),
{
    lemma_run(names, email, stores, updates, replies, n);
    match updates[n] {
        Update::DeletingLinks(_, stations, _) | Update::ListingSelected(_, stations) => {
            lemma_selected_ids(stores[0], names, stations, link.station_id);
        },
        _ => {},
    }
}

/// Nothing that an update asks of a consistent database is refused: no link is inserted that is
/// already there, and none to a user or a station that is not.
pub proof fn law_update_is_never_refused(
    names: Seq<String>,
    email: Seq<char>,
    stores: Seq<Store>,
    updates: Seq<Update>,
    replies: Seq<Replied>,
    n: int,
)
    requires
        is_run(stores, updates, replies),
        stores[0].is_consistent(),
        updates[0] == Update::start(names, email),
        0 <= n < updates.len(),
    ensures
        updates[n].request() matches Some(request) ==> stores[n].accepts(request),
{
    lemma_run(names, email, stores, updates, replies, n);
    match updates[n] {
        Update::InsertingLinks(user_id, links) => {
            assert(stores[n].stations == stores[0].stations);
            assert(forall|id: i32|
                stores[0].has_station(id) ==> #[trigger] stores[n].has_station(id));
        },
        _ => {},
    }
}

/// How many kinds of exchange an update has before it.
pub open spec fn phase(update: Update) -> nat {
    match update {
        Update::ListingStations(_, _) => 6,
        Update::FindingUser(_, _) => 5,
        Update::ListingLinks(_, _) => 4,
        Update::DeletingLinks(_, _, _) => 3,
        Update::ListingSelected(_, _) => 2,
        Update::InsertingUser(_, _) => 2,
        Update::InsertingLinks(_, _) => 1,
        Update::Finished(_) => 0,
    }
}

/// How many links an update has yet to delete.
pub open spec fn links_left(update: Update) -> nat {
    match update {
        Update::DeletingLinks(_, _, links) => links.len(),
        _ => 0,
    }
}

/// Each exchange with the database brings an update nearer to its end: a later kind of exchange
/// comes next, or one link fewer is left to delete.
pub proof fn law_update_comes_to_an_end(store: Store, update: Update, reply: Replied, after: Store)
    requires
        update.is_valid(),
        update.request() matches Some(request) && store.serves(request, reply, after),
    ensures
        update.next(reply).is_valid(),
        phase(update.next(reply)) < phase(update) || (phase(update.next(reply)) == phase(update)
            && links_left(update.next(reply)) < links_left(update)),
{
}

/// The first failure of the database ends an update with that failure, and nothing more is asked.
pub proof fn law_failure_ends_update(update: Update, cause: Cause)
    requires
        update.request() is Some,
    ensures
        update.next(Replied::Failed(cause)) == Update::Finished(Err(Error::DbError(cause))),
        update.next(Replied::Failed(cause)).request() is None,
{
}

/// Names that the same stations carry bring the links in line alike: neither the order nor repeats
/// of the names matter, nor names that no station carries.
pub proof fn law_only_named_stations_matter(
    before: Store,
    after: Store,
    names: Seq<String>,
    other: Seq<String>,
    email: Seq<char>,
    user_id: i32,
)
    requires
        is_in_line(before, after, names, email, user_id),
        forall|row: station::Row| #[trigger]
            before.stations.contains(row) ==> (is_one_of(names, row.name) <==> is_one_of(
                other,
                row.name,
            )),
    ensures
        is_in_line(before, after, other, email, user_id),
{
    assert forall|id: i32| #[trigger] is_wanted(before, names, id) <==> is_wanted(
        before,
        other,
        id,
    ) by {
        if is_wanted(before, names, id) {
            let row = choose|row: station::Row| #[trigger]
                before.stations.contains(row) && row.id == id && is_one_of(names, row.name);
            assert(is_one_of(other, row.name));
        }
        if is_wanted(before, other, id) {
            let row = choose|row: station::Row| #[trigger]
                before.stations.contains(row) && row.id == id && is_one_of(other, row.name);
            assert(is_one_of(names, row.name));
        }
    }
}

/// What is in line with the same names for the same user is the same.
proof fn lemma_in_line_is_exact(
    before: Store,
    after: Store,
    other_after: Store,
    names: Seq<String>,
    email: Seq<char>,
    user_id: i32,
)
    requires
        is_in_line(before, after, names, email, user_id),
        is_in_line(before, other_after, names, email, user_id),
    ensures
        after == other_after,
{
    assert forall|link: user_station::Model| after.links.contains(link)
        == other_after.links.contains(link) by {}
    assert(after.links =~= other_after.links);
}

/// Two updates of one database for one email address, with names that the same stations carry, both
/// succeed. Each ends in line with either list of names. They end alike where they are about the
/// same user: where one user has the email address, and, where nobody has it, if the new user gets
/// the same id.
pub proof fn law_equivalent_names_update_alike(
    names: Seq<String>,
    other_names: Seq<String>,
    email: Seq<char>,
    stores: Seq<Store>,
    updates: Seq<Update>,
    replies: Seq<Replied>,
    other_stores: Seq<Store>,
    other_updates: Seq<Update>,
    other_replies: Seq<Replied>,
)
    requires
        is_run(stores, updates, replies),
        stores[0].is_consistent(),
        updates[0] == Update::start(names, email),
        updates.last() is Finished,
        is_run(other_stores, other_updates, other_replies),
        other_stores[0] == stores[0],
        other_updates[0] == Update::start(other_names, email),
        other_updates.last() is Finished,
        forall|row: station::Row| #[trigger]
            stores[0].stations.contains(row) ==> (is_one_of(names, row.name) <==> is_one_of(
                other_names,
                row.name,
            )),
    ensures
        updates.last() == Update::Finished(Ok(())),
        other_updates.last() == Update::Finished(Ok(())),
        exists|a: i32, b: i32|
            {
                &&& #[trigger] is_in_line(stores[0], stores.last(), names, email, a)
                &&& #[trigger] is_in_line(stores[0], other_stores.last(), names, email, b)
                &&& stores[0].has_email(email) && stores[0].is_unique(email) ==> a == b
                &&& a == b ==> other_stores.last() == stores.last()
            },
{
    law_update_brings_links_in_line(names, email, stores, updates, replies);
    law_update_brings_links_in_line(
        other_names,
        email,
        other_stores,
        other_updates,
        other_replies,
    );
    let before = stores[0];
    let after = stores.last();
    let other_after = other_stores.last();
    let a = choose|user_id: i32| is_in_line(before, after, names, email, user_id);
    let b = choose|user_id: i32| is_in_line(before, other_after, other_names, email, user_id);
    law_only_named_stations_matter(before, other_after, other_names, names, email, b);
    if a == b {
        lemma_in_line_is_exact(before, after, other_after, names, email, a);
    }
    assert(is_in_line(before, after, names, email, a));
    assert(is_in_line(before, other_after, names, email, b));
}

/// Where no two users have the email address, the last of two updates wins: the user is linked to
/// exactly the stations of the later names, whatever the earlier ones were, and everything else is
/// as it was before both.
pub proof fn law_last_update_wins(
    names: Seq<String>,
    later_names: Seq<String>,
    email: Seq<char>,
    stores: Seq<Store>,
    updates: Seq<Update>,
    replies: Seq<Replied>,
    later_stores: Seq<Store>,
    later_updates: Seq<Update>,
    later_replies: Seq<Replied>,
)
    requires
        is_run(stores, updates, replies),
        stores[0].is_consistent(),
        stores[0].is_unique(email),
        updates[0] == Update::start(names, email),
        updates.last() is Finished,
        is_run(later_stores, later_updates, later_replies),
        later_stores[0] == stores.last(),
        later_updates[0] == Update::start(later_names, email),
        later_updates.last() is Finished,
    ensures
        exists|user_id: i32|
            is_in_line(stores[0], stores.last(), names, email, user_id) && #[trigger] is_in_line(
                stores[0],
                later_stores.last(),
                later_names,
                email,
                user_id,
            ),
{
    law_update_brings_links_in_line(names, email, stores, updates, replies);
    law_update_brings_links_in_line(
        later_names,
        email,
        later_stores,
        later_updates,
        later_replies,
    );
    let before = stores[0];
    let mid = stores.last();
    let after = later_stores.last();
    let a = choose|user_id: i32| is_in_line(before, mid, names, email, user_id);
    let b = choose|user_id: i32| is_in_line(mid, after, later_names, email, user_id);
    assert(mid.users.contains_key(a) && mid.users[a] == email);
    assert(mid.has_email(email));
    assert(mid.users.contains_key(b) && mid.users[b] == email);
    if a != b {
        assert(before.users.contains_key(b) && before.users[b] == email);
        assert(before.has_email(email));
    }
    assert forall|link: user_station::Model| #[trigger]
        after.links.contains(link) <==> if link.user_id == a {
            is_wanted(before, later_names, link.station_id)
        } else {
            before.links.contains(link)
        } by {
        assert(is_wanted(mid, later_names, link.station_id) <==> is_wanted(
            before,
            later_names,
            link.station_id,
        )) by {
            assert(mid.stations == before.stations);
        }
        if link.user_id != a {
            assert(mid.links.contains(link) <==> before.links.contains(link));
        }
    }
    assert(is_in_line(before, after, later_names, email, a));
}

/// Where no two users have the email address, the same update a second time changes nothing.
pub proof fn law_second_update_changes_nothing(
    names: Seq<String>,
    email: Seq<char>,
    stores: Seq<Store>,
    updates: Seq<Update>,
    replies: Seq<Replied>,
    later_stores: Seq<Store>,
    later_updates: Seq<Update>,
    later_replies: Seq<Replied>,
)
    requires
        is_run(stores, updates, replies),
        stores[0].is_consistent(),
        stores[0].is_unique(email),
        updates[0] == Update::start(names, email),
        updates.last() is Finished,
        is_run(later_stores, later_updates, later_replies),
        later_stores[0] == stores.last(),
        later_updates[0] == Update::start(names, email),
        later_updates.last() is Finished,
    ensures
        later_stores.last() == stores.last(),
{
    law_last_update_wins(
        names,
        names,
        email,
        stores,
        updates,
        replies,
        later_stores,
        later_updates,
        later_replies,
    );
    let user_id = choose|user_id: i32|
        is_in_line(stores[0], stores.last(), names, email, user_id) && #[trigger] is_in_line(
            stores[0],
            later_stores.last(),
            names,
            email,
            user_id,
        );
    lemma_in_line_is_exact(
        stores[0],
        stores.last(),
        later_stores.last(),
        names,
        email,
        user_id,
    );
}

/// After an update that has ended against a consistent database, one user with the email address,
/// new where nobody had it, is linked to a station exactly where some selected name, at whatever
/// place of the list, is the station's name. All other users and links, and the stations and lines,
/// are as they were.
pub proof fn law_update_links_exactly_the_selected(
    names: Seq<String>,
    email: Seq<char>,
    stores: Seq<Store>,
    updates: Seq<Update>,
    replies: Seq<Replied>,
)
    requires
        is_run(stores, updates, replies),
        stores[0].is_consistent(),
        updates[0] == Update::start(names, email),
        updates.last() is Finished,
    ensures
        stores.last().stations == stores[0].stations,
        stores.last().lines == stores[0].lines,
        exists|user_id: i32|
            {
                &&& #[trigger] stores.last().users.contains_key(user_id)
                &&& stores.last().users == stores[0].users.insert(user_id, email)
                &&& (exists|id: i32| #[trigger]
                    stores[0].users.contains_key(id) && stores[0].users[id] == email)
                    ==> stores.last().users == stores[0].users
                &&& (forall|id: i32| #[trigger]
                    stores[0].users.contains_key(id) ==> stores[0].users[id] != email)
                    ==> !stores[0].users.contains_key(user_id)
                &&& forall|row: station::Row, i: int|
                    #![trigger stores[0].stations.contains(row), names[i]]
                    stores[0].stations.contains(row) && 0 <= i < names.len() && names[i]@
                        == row.name ==> stores.last().links.contains(
                        user_station::Model { user_id, station_id: row.id },
                    )
                &&& forall|link: user_station::Model| #[trigger]
                    stores.last().links.contains(link) && link.user_id == user_id
                        ==> exists|row: station::Row, i: int|
                        #![trigger stores[0].stations.contains(row), names[i]]
                        stores[0].stations.contains(row) && 0 <= i < names.len() && names[i]@
                            == row.name && row.id == link.station_id
                &&& forall|link: user_station::Model|
                    link.user_id != user_id ==> (#[trigger] stores.last().links.contains(link)
                        <==> stores[0].links.contains(link))
            },
{
    law_update_brings_links_in_line(names, email, stores, updates, replies);
    let before = stores[0];
    let after = stores.last();
    let user_id = choose|user_id: i32| is_in_line(before, after, names, email, user_id);
    if exists|id: i32| #[trigger] before.users.contains_key(id) && before.users[id] == email {
        assert(before.has_email(email));
    }
    assert(after.users.contains_key(user_id));
    assert(after.users =~= before.users.insert(user_id, email));
    assert forall|row: station::Row, i: int|
        #![trigger before.stations.contains(row), names[i]]
        before.stations.contains(row) && 0 <= i < names.len() && names[i]@
            == row.name implies after.links.contains(
        user_station::Model { user_id, station_id: row.id },
    ) by {
        assert(is_one_of(names, row.name));
        assert(is_wanted(before, names, row.id));
    }
    assert forall|link: user_station::Model| #[trigger]
        after.links.contains(link) && link.user_id == user_id implies exists|
        row: station::Row,
        i: int,
    |
        #![trigger before.stations.contains(row), names[i]]
        before.stations.contains(row) && 0 <= i < names.len() && names[i]@ == row.name && row.id
            == link.station_id by {
        assert(is_wanted(before, names, link.station_id));
        let row = choose|row: station::Row| #[trigger]
            before.stations.contains(row) && row.id == link.station_id && is_one_of(
                names,
                row.name,
            );
        let i = choose|i: int| 0 <= i < names.len() && (#[trigger] names[i])@ == row.name;
        assert(before.stations.contains(row) && names[i]@ == row.name);
    }
}

} // verus!
