//! What an update asks of the database, given what the database replies.

use vstd::prelude::*;

use crate::database::{station, user, user_station};
use crate::exchange::{Asked, Replied};
use crate::selection::{
    has_id, holds, law_lists_hold_what_stands_in_them, law_named_station_is_selected,
    law_selected_station_is_named, links_to, selected, stale, unlisted,
};
use crate::update::Update;

verus! {

/// First an update asks for all stations, then for the user with the email address; then for the
/// links of the user that was found, or, where there is none, for a new user with the email
/// address.
pub proof fn law_update_asks_for_the_user(
    names: Seq<String>,
    email: Seq<char>,
    all: Seq<station::Model>,
    user: user::Model,
)
    ensures
        Update::start(names, email).request() == Some(Asked::ListStations),
        ({
            let listed = Update::start(names, email).next(Replied::Stations(all));
            &&& listed.request() == Some(Asked::FindUser(email))
            &&& listed.next(Replied::Found(Some(user))).request() == Some(
                Asked::ListUserStations(user.id),
            )
            &&& listed.next(Replied::Found(None)).request() == Some(Asked::InsertUser(email))
        }),
{
}

/// Whether a link leads to a station of the list whose name was selected.
proof fn lemma_selected_link(names: Seq<String>, all: Seq<station::Model>, id: i32)
    ensures
        has_id(selected(all, names), id) <==> exists|k: int, i: int|
            0 <= k < all.len() && 0 <= i < names.len() && (#[trigger] all[k]).id == id && (
            #[trigger] names[i])@ == all[k].name@,
{
    let stations = selected(all, names);
    if has_id(stations, id) {
        let p = choose|p: int| 0 <= p < stations.len() && (#[trigger] stations[p]).id == id;
        law_selected_station_is_named(all, names, p);
        let k = choose|k: int| 0 <= k < all.len() && all[k] == stations[p];
        let i = choose|i: int| 0 <= i < names.len() && (#[trigger] names[i])@ == stations[p].name@;
        assert(all[k].id == id && names[i]@ == all[k].name@);
    }
    if exists|k: int, i: int|
        0 <= k < all.len() && 0 <= i < names.len() && (#[trigger] all[k]).id == id && (
        #[trigger] names[i])@ == all[k].name@ {
        let (k, i) = choose|k: int, i: int|
            0 <= k < all.len() && 0 <= i < names.len() && (#[trigger] all[k]).id == id && (
            #[trigger] names[i])@ == all[k].name@;
        law_named_station_is_selected(all, names, k, i);
        let p = choose|p: int| 0 <= p < stations.len() && stations[p] == all[k];
        assert(stations[p].id == id);
    }
}

/// While links go, each `Done` takes one of them off.
proof fn lemma_deleting(
    user_id: i32,
    stations: Seq<station::Model>,
    links: Seq<user_station::Model>,
    n: nat,
)
    requires
        n <= links.len(),
    ensures
        Seq::new(n, |i: int| Replied::Done).fold_left(
            Update::deleting(user_id, stations, links),
            |update: Update, reply: Replied| update.next(reply),
        ) == Update::deleting(user_id, stations, links.skip(n as int)),
    decreases n,
{
    let replies = Seq::new(n, |i: int| Replied::Done);
    let step = |update: Update, reply: Replied| update.next(reply);
    if n == 0 {
        assert(links.skip(0) =~= links);
    } else {
        let fewer = Seq::new((n - 1) as nat, |i: int| Replied::Done);
        lemma_deleting(user_id, stations, links, (n - 1) as nat);
        assert(replies.drop_last() =~= fewer);
        assert(links.skip(n - 1).skip(1) =~= links.skip(n as int));
    }
}

/// A user who was found is rid of links one at a time: of each link of the reply, at whatever
/// place, that leads to no station whose name was selected, and of no other. Each goes in its turn,
/// once the ones before it are gone, and then the stations are asked for that the user is still
/// linked to.
pub proof fn law_update_deletes_what_was_not_selected(
    names: Seq<String>,
    email: Seq<char>,
    all: Seq<station::Model>,
    user: user::Model,
    links: Seq<user_station::Model>,
    n: nat,
    link: user_station::Model,
)
    ensures
        ({
            let gone = stale(links, selected(all, names));
            let update = Seq::new(n, |i: int| Replied::Done).fold_left(
                Update::start(names, email).next(Replied::Stations(all)).next(
                    Replied::Found(Some(user)),
                ).next(Replied::UserStations(links)),
                |update: Update, reply: Replied| update.next(reply),
            );
            &&& gone.contains(link) <==> links.contains(link) && !(exists|k: int, i: int|
                0 <= k < all.len() && 0 <= i < names.len() && (#[trigger] all[k]).id
                    == link.station_id && (#[trigger] names[i])@ == all[k].name@)
            &&& n < gone.len() ==> update.request() == Some(
                Asked::DeleteUserStation(gone[n as int]),
            )
            &&& n == gone.len() ==> update.request() == Some(Asked::ListSelectedStations(user.id))
        }),
{
    let stations = selected(all, names);
    let gone = stale(links, stations);
    let pred = |link: user_station::Model| !has_id(stations, link.station_id);
    lemma_selected_link(names, all, link.station_id);
    if gone.contains(link) {
        links.lemma_filter_contains_rev(pred, link);
        let i = choose|i: int| 0 <= i < gone.len() && gone[i] == link;
        links.lemma_filter_pred(pred, i);
    }
    if links.contains(link) && !has_id(stations, link.station_id) {
        let i = choose|i: int| 0 <= i < links.len() && links[i] == link;
        assert(pred(links[i]));
        links.lemma_filter_contains(pred, i);
    }
    if n <= gone.len() {
        lemma_deleting(user.id, stations, gone, n);
    }
}

/// Once the links that were not selected are gone, a user who was found gets new links: one to each
/// station whose name was selected and that the reply, in both columns, does not list as one that
/// the user is linked to already, and no other. Then the update has ended well.
pub proof fn law_update_inserts_what_is_missing(
    names: Seq<String>,
    email: Seq<char>,
    all: Seq<station::Model>,
    user: user::Model,
    links: Seq<user_station::Model>,
    already: Seq<station::Model>,
    link: user_station::Model,
)
    ensures
        ({
            let gone = stale(links, selected(all, names));
            let new = links_to(user.id, unlisted(selected(all, names), already));
            let update = Seq::new(gone.len(), |i: int| Replied::Done).fold_left(
                Update::start(names, email).next(Replied::Stations(all)).next(
                    Replied::Found(Some(user)),
                ).next(Replied::UserStations(links)),
                |update: Update, reply: Replied| update.next(reply),
            ).next(Replied::Stations(already));
            &&& update.request() == Some(Asked::InsertUserStations(new))
            &&& update.next(Replied::Done) == Update::Finished(Ok(()))
            &&& new.contains(link) <==> link.user_id == user.id && exists|k: int, i: int|
                {
                    &&& 0 <= k < all.len()
                    &&& 0 <= i < names.len()
                    &&& (#[trigger] all[k]).id == link.station_id
                    &&& (#[trigger] names[i])@ == all[k].name@
                    &&& forall|j: int|
                        0 <= j < already.len() ==> (#[trigger] already[j]).id != all[k].id
                            || already[j].name@ != all[k].name@
                }
        }),
{
    let stations = selected(all, names);
    let gone = stale(links, stations);
    lemma_deleting(user.id, stations, gone, gone.len());
    assert(gone.skip(gone.len() as int) =~= Seq::empty());
    lemma_missing(names, all, user.id, already, link);
}

/// The links to the stations that were selected and that are not listed.
proof fn lemma_missing(
    names: Seq<String>,
    all: Seq<station::Model>,
    user_id: i32,
    already: Seq<station::Model>,
    link: user_station::Model,
)
    ensures
        links_to(user_id, unlisted(selected(all, names), already)).contains(link) <==> link.user_id
            == user_id && exists|k: int, i: int|
            {
                &&& 0 <= k < all.len()
                &&& 0 <= i < names.len()
                &&& (#[trigger] all[k]).id == link.station_id
                &&& (#[trigger] names[i])@ == all[k].name@
                &&& forall|j: int|
                    0 <= j < already.len() ==> (#[trigger] already[j]).id != all[k].id
                        || already[j].name@ != all[k].name@
            },
{
    let stations = selected(all, names);
    let missing = unlisted(stations, already);
    let new = links_to(user_id, missing);
    let pred = |station: station::Model| !holds(already, station@);
    if new.contains(link) {
        let p = choose|p: int| 0 <= p < new.len() && new[p] == link;
        stations.lemma_filter_pred(pred, p);
        stations.lemma_filter_contains_rev(pred, missing[p]);
        let q = choose|q: int| 0 <= q < stations.len() && stations[q] == missing[p];
        law_selected_station_is_named(all, names, q);
        let k = choose|k: int| 0 <= k < all.len() && all[k] == stations[q];
        let i = choose|i: int| 0 <= i < names.len() && (#[trigger] names[i])@ == stations[q].name@;
        law_lists_hold_what_stands_in_them(names, Seq::empty(), already, all[k]@, 0);
        assert(all[k].id == link.station_id && names[i]@ == all[k].name@);
    }
    if link.user_id == user_id && exists|k: int, i: int|
        {
            &&& 0 <= k < all.len()
            &&& 0 <= i < names.len()
            &&& (#[trigger] all[k]).id == link.station_id
            &&& (#[trigger] names[i])@ == all[k].name@
            &&& forall|j: int|
                0 <= j < already.len() ==> (#[trigger] already[j]).id != all[k].id
                    || already[j].name@ != all[k].name@
        } {
        let (k, i) = choose|k: int, i: int|
            {
                &&& 0 <= k < all.len()
                &&& 0 <= i < names.len()
                &&& (#[trigger] all[k]).id == link.station_id
                &&& (#[trigger] names[i])@ == all[k].name@
                &&& forall|j: int|
                    0 <= j < already.len() ==> (#[trigger] already[j]).id != all[k].id
                        || already[j].name@ != all[k].name@
            };
        law_named_station_is_selected(all, names, k, i);
        let q = choose|q: int| 0 <= q < stations.len() && stations[q] == all[k];
        law_lists_hold_what_stands_in_them(names, Seq::empty(), already, all[k]@, 0);
        assert(pred(stations[q]));
        stations.lemma_filter_contains(pred, q);
        let p = choose|p: int| 0 <= p < missing.len() && missing[p] == stations[q];
        assert(new[p] == link);
    }
}

/// A new user gets a link to each station whose name was selected, and no other. Then the update
/// has ended well.
pub proof fn law_update_links_a_new_user(
    names: Seq<String>,
    email: Seq<char>,
    all: Seq<station::Model>,
    user: user::Model,
    link: user_station::Model,
)
    ensures
        ({
            let new = links_to(user.id, selected(all, names));
            let update = Update::start(names, email).next(Replied::Stations(all)).next(
                Replied::Found(None),
            ).next(Replied::Inserted(user));
            &&& update.request() == Some(Asked::InsertUserStations(new))
            &&& update.next(Replied::Done) == Update::Finished(Ok(()))
            &&& new.contains(link) <==> link.user_id == user.id && exists|k: int, i: int|
                0 <= k < all.len() && 0 <= i < names.len() && (#[trigger] all[k]).id
                    == link.station_id && (#[trigger] names[i])@ == all[k].name@
        }),
{
    let stations = selected(all, names);
    let new = links_to(user.id, stations);
    lemma_selected_link(names, all, link.station_id);
    if new.contains(link) {
        let p = choose|p: int| 0 <= p < new.len() && new[p] == link;
        assert(stations[p].id == link.station_id);
    }
    if link.user_id == user.id && has_id(stations, link.station_id) {
        let p = choose|p: int|
            0 <= p < stations.len() && (#[trigger] stations[p]).id == link.station_id;
        assert(new[p] == link);
    }
}

/// A reply to something else than was asked leaves an update as it was, and so does any reply to
/// one that has ended.
pub proof fn law_update_takes_only_answers(update: Update, reply: Replied)
    requires
        !(reply is Failed) || update is Finished,
        update is ListingStations ==> !(reply is Stations),
        update is FindingUser ==> !(reply is Found),
        update is ListingLinks ==> !(reply is UserStations),
        update is DeletingLinks ==> !(reply is Done),
        update is ListingSelected ==> !(reply is Stations),
        update is InsertingUser ==> !(reply is Inserted),
        update is InsertingLinks ==> !(reply is Done),
    ensures
        update.next(reply) == update,
{
}

} // verus!
