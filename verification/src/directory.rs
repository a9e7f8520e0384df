//! The lines and stations that subscribers can choose from.

use vstd::prelude::*;

use crate::database::{rail_line, station};
use crate::error::{Cause, Error};
use crate::exchange::{Asked, Replied, Reply, Request};
use crate::store::{is_list_of, line_names, Store};
use crate::text::texts;

verus! {

/// The names of the rail lines, in their order.
pub fn get_lines_raw(lines: Vec<rail_line::Model>) -> (result: Vec<String>)
    ensures
        texts(result@) == line_names(lines@),
        result@.len() == lines@.len(),
        forall|i: int| 0 <= i < lines@.len() ==> (#[trigger] result@[i])@ == lines@[i].name@,
{
    let ghost all = lines@;
    let mut names: Vec<String> = Vec::new();
    for line in it: lines.into_iter()
        invariant
            it.seq() == all,
            texts(names@) == line_names(all).take(it.index()),
            names@.len() == it.index(),
            forall|i: int| 0 <= i < names@.len() ==> (#[trigger] names@[i])@ == all[i].name@,
    {
        let ghost before = names@;
        names.push(line.name);
        assert(texts(names@) =~= texts(before).push(line.name@));
    }
    names
}

/// A station, as subscribers see it.
pub struct StationInfo {
    pub name: String,
    pub lines: Vec<String>,
}

/// The texts of a station's entry.
pub struct Info {
    pub name: Seq<char>,
    pub lines: Seq<Seq<char>>,
}

impl View for StationInfo {
    type V = Info;

    open spec fn view(&self) -> Info {
        Info { name: self.name@, lines: texts(self.lines@) }
    }
}

/// The texts of a list of entries.
pub open spec fn infos(entries: Seq<StationInfo>) -> Seq<Info> {
    entries.map_values(|entry: StationInfo| entry@)
}

/// How far the list of stations has come.
pub enum Listing {
    /// Waits for all stations.
    ListingStations,
    /// Waits for the lines of the first station without an entry; knows the stations, and the
    /// entries so far.
    ListingLines(Seq<station::Model>, Seq<Info>),
    /// Waits for nothing.
    Finished(Result<Seq<Info>, Error>),
}

impl Listing {
    /// A station has no entry yet while lines are looked up.
    pub open spec fn is_valid(self) -> bool {
        self matches Listing::ListingLines(stations, entries) ==> entries.len() < stations.len()
    }

    /// The lines of each station are looked up in turn; then the list is complete.
    pub open spec fn listing(stations: Seq<station::Model>, entries: Seq<Info>) -> Listing {
        if entries.len() == stations.len() {
            Listing::Finished(Ok(entries))
        } else {
            Listing::ListingLines(stations, entries)
        }
    }

    /// What is asked of the database next.
    pub open spec fn request(self) -> Option<Asked> {
        match self {
            Listing::ListingStations => Some(Asked::ListStations),
            Listing::ListingLines(stations, entries) => Some(
                Asked::ListStationLines(stations[entries.len() as int].id),
            ),
            Listing::Finished(_) => None,
        }
    }

    /// Where the list stands after a reply. A failure ends it. A reply that does not answer the
    /// request changes nothing.
    pub open spec fn next(self, reply: Replied) -> Listing {
        match (self, reply) {
            (Listing::Finished(_), _) => self,
            (_, Replied::Failed(cause)) => Listing::Finished(Err(Error::DbError(cause))),
            (Listing::ListingStations, Replied::Stations(stations)) => Listing::listing(
                stations,
                Seq::empty(),
            ),
            (Listing::ListingLines(stations, entries), Replied::RailLines(lines)) => {
                let entry = Info {
                    name: stations[entries.len() as int].name@,
                    lines: line_names(lines),
                };
                Listing::listing(stations, entries.push(entry))
            },
            _ => self,
        }
    }
}

enum State {
    ListingStations,
    ListingLines { stations: Vec<station::Model>, entries: Vec<StationInfo> },
    Finished { result: Result<Vec<StationInfo>, Error> },
}

/// A list of stations on its way: it says what to ask of the database, and is told the reply.
pub struct StationListing {
    state: State,
}

impl View for StationListing {
    type V = Listing;

    closed spec fn view(&self) -> Listing {
        match self.state {
            State::ListingStations => Listing::ListingStations,
            State::ListingLines { stations, entries } => Listing::ListingLines(
                stations@,
                infos(entries@),
            ),
            State::Finished { result: Ok(entries) } => Listing::Finished(Ok(infos(entries@))),
            State::Finished { result: Err(error) } => Listing::Finished(Err(error)),
        }
    }
}

impl StationListing {
    /// A station has no entry yet while lines are looked up.
    #[verifier::type_invariant]
    spec fn has_station_without_entry(self) -> bool {
        self.state matches State::ListingLines { stations, entries } ==> entries@.len()
            < stations@.len()
    }

    /// The lines of the next station are looked up; where none is left, the list is complete.
    fn listing(stations: Vec<station::Model>, entries: Vec<StationInfo>) -> (result: StationListing)
        requires
            entries@.len() <= stations@.len(),
        ensures
            result@ == Listing::listing(stations@, infos(entries@)),
    {
        if entries.len() == stations.len() {
            StationListing { state: State::Finished { result: Ok(entries) } }
        } else {
            StationListing { state: State::ListingLines { stations, entries } }
        }
    }

    /// What to ask of the database next; nothing, once the list has ended.
    pub fn request(&self) -> (result: Option<Request>)
        ensures
            self@.is_valid(),
            match result {
                Some(request) => self@.request() == Some(request@),
                None => self@.request() is None,
            },
    {
        proof {
            use_type_invariant(self);
        }
        match &self.state {
            State::ListingStations => Some(Request::ListStations),
            State::ListingLines { stations, entries } => Some(
                Request::ListStationLines(stations[entries.len()].id),
            ),
            State::Finished { .. } => None,
        }
    }

    /// Tells the list what the database replied.
    pub fn resume(self, reply: Reply) -> (result: StationListing)
        ensures
            result@ == self@.next(reply@),
    {
        proof {
            use_type_invariant(&self);
        }
        match (self.state, reply) {
            (State::Finished { result }, _) => StationListing { state: State::Finished { result } },
            (_, Reply::Failed(cause)) => StationListing {
                state: State::Finished { result: Err(Error::DbError(cause)) },
            },
            (State::ListingStations, Reply::Stations(stations)) => {
                let entries: Vec<StationInfo> = Vec::new();
                assert(infos(entries@) =~= Seq::empty());
                StationListing::listing(stations, entries)
            },
            (State::ListingLines { stations, entries }, Reply::RailLines(lines)) => {
                let mut entries = entries;
                let ghost before = entries@;
                let name = stations[entries.len()].name.clone();
                let entry = StationInfo { name, lines: get_lines_raw(lines) };
                entries.push(entry);
                assert(infos(entries@) =~= infos(before).push(entry@));
                StationListing::listing(stations, entries)
            },
            (state, _) => StationListing { state },
        }
    }

    /// How the list ended, once nothing more is asked.
    pub fn finish(self) -> (result: Option<Result<Vec<StationInfo>, Error>>)
        ensures
            match result {
                Some(Ok(entries)) => self@ == Listing::Finished(Ok(infos(entries@))),
                Some(Err(error)) => self@ == Listing::Finished(Err(error)),
                None => !(self@ is Finished),
            },
    {
        match self.state {
            State::Finished { result } => Some(result),
            _ => None,
        }
    }
}

/// Begins to list the stations, each with its lines.
pub fn get_stations() -> (result: StationListing)
    ensures
        result@ == Listing::ListingStations,
{
    StationListing { state: State::ListingStations }
}

/// The entry of a station: its name, and the names of the lines that stop there.
pub open spec fn is_entry(store: Store, station: station::Model, entry: Info) -> bool {
    entry == (Info { name: station.name@, lines: store.lines[station.id] })
}

/// A list against a database.
pub open spec fn is_run(stores: Seq<Store>, listings: Seq<Listing>, replies: Seq<Replied>) -> bool {
    &&& stores.len() == replies.len() + 1
    &&& listings.len() == replies.len() + 1
    &&& forall|i: int|
        0 <= i < replies.len() ==> is_step(
            stores[i],
            listings[i],
            #[trigger] replies[i],
            stores[i + 1],
            listings[i + 1],
        )
}

/// One request, served, and what the list makes of the reply.
pub open spec fn is_step(
    store: Store,
    listing: Listing,
    reply: Replied,
    after: Store,
    next: Listing,
) -> bool {
    &&& listing.request() matches Some(request) && store.serves(request, reply, after)
    &&& next == listing.next(reply)
}

/// The entries of the first stations of a list.
pub open spec fn are_entries(
    store: Store,
    stations: Seq<station::Model>,
    entries: Seq<Info>,
) -> bool {
    &&& is_list_of(stations, store.stations)
    &&& entries.len() <= stations.len()
    &&& forall|i: int|
        0 <= i < entries.len() ==> is_entry(store, stations[i], #[trigger] entries[i])
}

/// The entries of all stations.
pub open spec fn is_complete(store: Store, entries: Seq<Info>) -> bool {
    exists|stations: Seq<station::Model>|
        entries.len() == stations.len() && #[trigger] are_entries(store, stations, entries)
}

/// What holds at each moment of a list.
spec fn is_on_its_way(before: Store, now: Store, listing: Listing) -> bool {
    &&& now == before
    &&& match listing {
        Listing::ListingStations => true,
        Listing::ListingLines(stations, entries) => {
            &&& entries.len() < stations.len()
            &&& are_entries(before, stations, entries)
        },
        Listing::Finished(Ok(entries)) => is_complete(before, entries),
        Listing::Finished(Err(_)) => false,
    }
}

proof fn lemma_run(stores: Seq<Store>, listings: Seq<Listing>, replies: Seq<Replied>, n: int)
    requires
        is_run(stores, listings, replies),
        listings[0] is ListingStations,
        0 <= n <= replies.len(),
    ensures
        is_on_its_way(stores[0], stores[n], listings[n]),
    decreases n,
{
    if n > 0 {
        lemma_run(stores, listings, replies, n - 1);
        let reply = replies[n - 1];
        assert(is_step(
            stores[n - 1],
            listings[n - 1],
            reply,
            stores[n - 1 + 1],
            listings[n - 1 + 1],
        ));
        match listings[n - 1] {
            Listing::ListingStations => {
                assert(are_entries(stores[0], reply->Stations_0, Seq::empty()));
            },
            Listing::ListingLines(stations, entries) => {
                let entry = Info {
                    name: stations[entries.len() as int].name@,
                    lines: line_names(reply->RailLines_0),
                };
                assert(entry.lines =~= stores[0].lines[stations[entries.len() as int].id]);
                assert(are_entries(stores[0], stations, entries.push(entry)));
            },
            _ => {},
        }
    }
}

/// A list that ends against the database succeeds and has changed nothing. It has one entry for
/// each station, with the station's name and the names of the lines that stop there.
pub proof fn law_listing_has_every_station(
    stores: Seq<Store>,
    listings: Seq<Listing>,
    replies: Seq<Replied>,
)
    requires
        is_run(stores, listings, replies),
        listings[0] is ListingStations,
        listings.last() is Finished,
    ensures
        stores.last() == stores[0],
        listings.last() matches Listing::Finished(Ok(entries)) && is_complete(stores[0], entries),
{
    lemma_run(stores, listings, replies, replies.len() as int);
}

/// How many stations have no entry yet.
pub open spec fn stations_left(listing: Listing) -> nat {
    match listing {
        Listing::ListingLines(stations, entries) => (stations.len() - entries.len()) as nat,
        _ => 0,
    }
}

/// Each exchange with the database brings a list nearer to its end: the stations come to be known,
/// or one station fewer is left without an entry.
pub proof fn law_listing_comes_to_an_end(
    store: Store,
    listing: Listing,
    reply: Replied,
    after: Store,
)
    requires
        listing.is_valid(),
        listing.request() matches Some(request) && store.serves(request, reply, after),
    ensures
        listing.next(reply).is_valid(),
        listing is ListingStations ==> !(listing.next(reply) is ListingStations),
        listing is ListingLines ==> !(listing.next(reply) is ListingStations) && stations_left(
            listing.next(reply),
        ) < stations_left(listing),
{
}

/// The first failure of the database ends a list with that failure, and nothing more is asked.
pub proof fn law_failure_ends_listing(listing: Listing, cause: Cause)
    requires
        listing.request() is Some,
    ensures
        listing.next(Replied::Failed(cause)) == Listing::Finished(Err(Error::DbError(cause))),
        listing.next(Replied::Failed(cause)).request() is None,
{
}

/// The texts of a list of entries are those of its entries, one by one: the name of each, and the
/// names of its lines, one by one.
pub proof fn law_infos_are_of_the_entries(entries: Seq<StationInfo>)
    ensures
        infos(entries).len() == entries.len(),
        forall|i: int|
            0 <= i < entries.len() ==> (#[trigger] infos(entries)[i]).name == entries[i].name@,
        forall|i: int|
            0 <= i < entries.len() ==> (#[trigger] infos(entries)[i]).lines.len()
                == entries[i].lines@.len(),
        forall|i: int, j: int|
            0 <= i < entries.len() && 0 <= j < entries[i].lines@.len()
                ==> #[trigger] infos(entries)[i].lines[j] == entries[i].lines@[j]@,
{
}

/// The list of stations, told what the database replies: first it asks for the stations; then for
/// the lines of each station in turn, as long as one is left; and then it has ended with an entry
/// for each station, in their order, with the station's name and the names of all lines of the
/// reply for that station, in their order.
pub proof fn law_listing_tells_the_replies(
    stations: Seq<station::Model>,
    lines: Seq<Seq<rail_line::Model>>,
    n: int,
)
    requires
        lines.len() == stations.len(),
        0 <= n <= stations.len(),
    ensures
        Listing::ListingStations.request() == Some(Asked::ListStations),
        ({
            let listing = lines.take(n).fold_left(
                Listing::ListingStations.next(Replied::Stations(stations)),
                |listing: Listing, rows: Seq<rail_line::Model>|
                    listing.next(Replied::RailLines(rows)),
            );
            if n < stations.len() {
                listing.request() == Some(Asked::ListStationLines(stations[n].id))
            } else {
                &&& listing.request() is None
                &&& listing matches Listing::Finished(Ok(entries)) && {
                    &&& entries.len() == stations.len()
                    &&& forall|i: int|
                        0 <= i < entries.len() ==> (#[trigger] entries[i]).name == stations[i].name@
                            && entries[i].lines.len() == lines[i].len()
                    &&& forall|i: int, j: int|
                        0 <= i < entries.len() && 0 <= j < lines[i].len()
                            ==> #[trigger] entries[i].lines[j] == lines[i][j].name@
                }
            }
        }),
{
    lemma_listing_so_far(stations, lines, n);
}

/// The first replies for stations give the first entries.
proof fn lemma_listing_so_far(
    stations: Seq<station::Model>,
    lines: Seq<Seq<rail_line::Model>>,
    n: int,
)
    requires
        lines.len() == stations.len(),
        0 <= n <= stations.len(),
    ensures
        lines.take(n).fold_left(
            Listing::ListingStations.next(Replied::Stations(stations)),
            |listing: Listing, rows: Seq<rail_line::Model>| listing.next(Replied::RailLines(rows)),
        ) == Listing::listing(
            stations,
            Seq::new(
                n as nat,
                |i: int| Info { name: stations[i].name@, lines: line_names(lines[i]) },
            ),
        ),
    decreases n,
{
    let first = Listing::ListingStations.next(Replied::Stations(stations));
    let step = |listing: Listing, rows: Seq<rail_line::Model>|
        listing.next(Replied::RailLines(rows));
    let entry = |i: int| Info { name: stations[i].name@, lines: line_names(lines[i]) };
    if n == 0 {
        assert(Seq::new(0, entry) =~= Seq::empty());
    } else {
        lemma_listing_so_far(stations, lines, n - 1);
        assert(lines.take(n).drop_last() =~= lines.take(n - 1));
        assert(lines.take(n).last() == lines[n - 1]);
        assert(Seq::new(n as nat, entry) =~= Seq::new((n - 1) as nat, entry).push(entry(n - 1)));
    }
}

/// A reply to something else than was asked leaves the list as it was, and so does any reply to one
/// that has ended.
pub proof fn law_listing_takes_only_answers(listing: Listing, reply: Replied)
    requires
        !(reply is Failed) || listing is Finished,
        listing is ListingStations ==> !(reply is Stations),
        listing is ListingLines ==> !(reply is RailLines),
    ensures
        listing.next(reply) == listing,
{
}

} // verus!
