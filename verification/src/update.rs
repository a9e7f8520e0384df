//! Brings the links of a user in line with the stations that the user selected.

use vstd::prelude::*;

use crate::database::{station, user_station};
use crate::error::Error;
use crate::exchange::{Asked, Replied, Reply, Request};
use crate::selection::{
    filter_out_stations, get_stations_from_names, links_to, new_user_stations, selected, stale,
    unlisted, user_stations_not_in_list,
};

verus! {

/// How far an update has come: what it waits for, and what it has learned so far.
pub enum Update {
    /// Waits for all stations; knows the selected names and the email address.
    ListingStations(Seq<String>, Seq<char>),
    /// Waits for the user; knows the selected stations.
    FindingUser(Seq<station::Model>, Seq<char>),
    /// Waits for the user's links.
    ListingLinks(i32, Seq<station::Model>),
    /// Waits for the first of these links to go.
    DeletingLinks(i32, Seq<station::Model>, Seq<user_station::Model>),
    /// Waits for the stations that the user is still linked to.
    ListingSelected(i32, Seq<station::Model>),
    /// Waits for the new user.
    InsertingUser(Seq<station::Model>, Seq<char>),
    /// Waits for these links to be inserted.
    InsertingLinks(i32, Seq<user_station::Model>),
    /// Waits for nothing.
    Finished(Result<(), Error>),
}

impl Update {
    /// Nothing is known yet but the selected names and the email address.
    pub open spec fn start(names: Seq<String>, email: Seq<char>) -> Update {
        Update::ListingStations(names, email)
    }

    /// While links are deleted, one is left to go.
    pub open spec fn is_valid(self) -> bool {
        self matches Update::DeletingLinks(_, _, links) ==> links.len() > 0
    }

    /// The stale links of a user go one by one; then the remaining stations are looked up.
    pub open spec fn deleting(
        user_id: i32,
        stations: Seq<station::Model>,
        links: Seq<user_station::Model>,
    ) -> Update {
        if links.len() == 0 {
            Update::ListingSelected(user_id, stations)
        } else {
            Update::DeletingLinks(user_id, stations, links)
        }
    }

    /// What is asked of the database next.
    pub open spec fn request(self) -> Option<Asked> {
        match self {
            Update::ListingStations(_, _) => Some(Asked::ListStations),
            Update::FindingUser(_, email) => Some(Asked::FindUser(email)),
            Update::ListingLinks(user_id, _) => Some(Asked::ListUserStations(user_id)),
            Update::DeletingLinks(_, _, links) => Some(Asked::DeleteUserStation(links[0])),
            Update::ListingSelected(user_id, _) => Some(Asked::ListSelectedStations(user_id)),
            Update::InsertingUser(_, email) => Some(Asked::InsertUser(email)),
            Update::InsertingLinks(_, links) => Some(Asked::InsertUserStations(links)),
            Update::Finished(_) => None,
        }
    }

    /// Where the update stands after a reply. A failure ends it. A reply that does not answer the
    /// request changes nothing.
    pub open spec fn next(self, reply: Replied) -> Update {
        match (self, reply) {
            (Update::Finished(_), _) => self,
            (_, Replied::Failed(cause)) => Update::Finished(Err(Error::DbError(cause))),
            (Update::ListingStations(names, email), Replied::Stations(all)) => Update::FindingUser(
                selected(all, names),
                email,
            ),
            (Update::FindingUser(stations, _), Replied::Found(Some(user))) => Update::ListingLinks(
                user.id,
                stations,
            ),
            (Update::FindingUser(stations, email), Replied::Found(None)) => Update::InsertingUser(
                stations,
                email,
            ),
            (Update::ListingLinks(user_id, stations), Replied::UserStations(links)) => {
                Update::deleting(user_id, stations, stale(links, stations))
            },
            (Update::DeletingLinks(user_id, stations, links), Replied::Done) => Update::deleting(
                user_id,
                stations,
                links.skip(1),
            ),
            (Update::ListingSelected(user_id, stations), Replied::Stations(already)) => {
                Update::InsertingLinks(user_id, links_to(user_id, unlisted(stations, already)))
            },
            (Update::InsertingUser(stations, _), Replied::Inserted(user)) => Update::InsertingLinks(
                user.id,
                links_to(user.id, stations),
            ),
            (Update::InsertingLinks(_, _), Replied::Done) => Update::Finished(Ok(())),
            _ => self,
        }
    }
}

/// An update on its way.
enum State {
    ListingStations { names: Vec<String>, email: String },
    FindingUser { stations: Vec<station::Model>, email: String },
    ListingLinks { user_id: i32, stations: Vec<station::Model> },
    DeletingLinks {
        user_id: i32,
        stations: Vec<station::Model>,
        links: Vec<user_station::Model>,
        gone: usize,
    },
    ListingSelected { user_id: i32, stations: Vec<station::Model> },
    InsertingUser { stations: Vec<station::Model>, email: String },
    InsertingLinks { user_id: i32, links: Vec<user_station::Model> },
    Finished { result: Result<(), Error> },
}

/// An update on its way: it says what to ask of the database, and is told the reply.
pub struct UserStationsUpdate {
    state: State,
}

impl View for UserStationsUpdate {
    type V = Update;

    closed spec fn view(&self) -> Update {
        match self.state {
            State::ListingStations { names, email } => Update::ListingStations(names@, email@),
            State::FindingUser { stations, email } => Update::FindingUser(stations@, email@),
            State::ListingLinks { user_id, stations } => Update::ListingLinks(user_id, stations@),
            State::DeletingLinks { user_id, stations, links, gone } => Update::DeletingLinks(
                user_id,
                stations@,
                links@.skip(gone as int),
            ),
            State::ListingSelected { user_id, stations } => Update::ListingSelected(
                user_id,
                stations@,
            ),
            State::InsertingUser { stations, email } => Update::InsertingUser(stations@, email@),
            State::InsertingLinks { user_id, links } => Update::InsertingLinks(user_id, links@),
            State::Finished { result } => Update::Finished(result),
        }
    }
}

impl UserStationsUpdate {
    /// While links are deleted, one is left to go.
    #[verifier::type_invariant]
    spec fn has_link_to_delete(self) -> bool {
        self.state matches State::DeletingLinks { links, gone, .. } ==> gone < links@.len()
    }

    /// The stale links go from `gone` on; where none is left, the remaining stations are looked up.
    fn deleting(
        user_id: i32,
        stations: Vec<station::Model>,
        links: Vec<user_station::Model>,
        gone: usize,
    ) -> (result: UserStationsUpdate)
        requires
            gone <= links@.len(),
        ensures
            result@ == Update::deleting(user_id, stations@, links@.skip(gone as int)),
    {
        if gone == links.len() {
            UserStationsUpdate { state: State::ListingSelected { user_id, stations } }
        } else {
            UserStationsUpdate { state: State::DeletingLinks { user_id, stations, links, gone } }
        }
    }

    /// The update has ended.
    fn finished(result: Result<(), Error>) -> (update: UserStationsUpdate)
        ensures
            update@ == Update::Finished(result),
    {
        UserStationsUpdate { state: State::Finished { result } }
    }

    /// What to ask of the database next; nothing, once the update has ended.
    pub fn request(&self) -> (result: Option<Request>)
        ensures
            self@.is_valid(),
            match result {
                Some(request) => self@.request() == Some(request@),
                None => self@.request() is None,
            },
    {
        proof {
            use_type_invariant(self);
        }
        match &self.state {
            State::ListingStations { .. } => Some(Request::ListStations),
            State::FindingUser { email, .. } => Some(Request::FindUser(email.clone())),
            State::ListingLinks { user_id, .. } => Some(Request::ListUserStations(*user_id)),
            State::DeletingLinks { links, gone, .. } => {
                Some(Request::DeleteUserStation(links[*gone]))
            },
            State::ListingSelected { user_id, .. } => Some(
                Request::ListSelectedStations(*user_id),
            ),
            State::InsertingUser { email, .. } => Some(Request::InsertUser(email.clone())),
            State::InsertingLinks { links, .. } => Some(Request::InsertUserStations(links.clone())),
            State::Finished { .. } => None,
        }
    }

    /// Tells the update what the database replied.
    pub fn resume(self, reply: Reply) -> (result: UserStationsUpdate)
        ensures
            result@ == self@.next(reply@),
    {
        proof {
            use_type_invariant(&self);
        }
        match (self.state, reply) {
            (State::Finished { result }, _) => UserStationsUpdate::finished(result),
            (_, Reply::Failed(cause)) => UserStationsUpdate::finished(Err(Error::DbError(cause))),
            (State::ListingStations { names, email }, Reply::Stations(all)) => {
                let stations = get_stations_from_names(all, names.as_slice());
                UserStationsUpdate { state: State::FindingUser { stations, email } }
            },
            (State::FindingUser { stations, email }, Reply::Found(found)) => match found {
                Some(user) => UserStationsUpdate {
                    state: State::ListingLinks { user_id: user.id, stations },
                },
                None => UserStationsUpdate { state: State::InsertingUser { stations, email } },
            },
            (State::ListingLinks { user_id, stations }, Reply::UserStations(links)) => {
                let links = user_stations_not_in_list(links, stations.as_slice());
                assert(links@.skip(0) =~= links@);
                UserStationsUpdate::deleting(user_id, stations, links, 0)
            },
            (State::DeletingLinks { user_id, stations, links, gone }, Reply::Done) => {
                assert(gone < links.len());
                assert(links@.skip(gone as int).skip(1) =~= links@.skip(gone + 1));
                UserStationsUpdate::deleting(user_id, stations, links, gone + 1)
            },
            (State::ListingSelected { user_id, stations }, Reply::Stations(already)) => {
                let mut stations = stations;
                filter_out_stations(&mut stations, already.as_slice());
                let links = new_user_stations(user_id, stations.as_slice());
                UserStationsUpdate { state: State::InsertingLinks { user_id, links } }
            },
            (State::InsertingUser { stations, .. }, Reply::Inserted(user)) => {
                let links = new_user_stations(user.id, stations.as_slice());
                UserStationsUpdate { state: State::InsertingLinks { user_id: user.id, links } }
            },
            (State::InsertingLinks { .. }, Reply::Done) => UserStationsUpdate::finished(Ok(())),
            (state, _) => UserStationsUpdate { state },
        }
    }

    /// How the update ended, once nothing more is asked.
    pub fn finish(self) -> (result: Option<Result<(), Error>>)
        ensures
            match result {
                Some(result) => self@ == Update::Finished(result),
                None => !(self@ is Finished),
            },
    {
        match self.state {
            State::Finished { result } => Some(result),
            _ => None,
        }
    }
}

/// Begins to bring the links of the user with this email address in line with the stations of
/// these names.
pub fn update_user_stations(names: Vec<String>, email: String) -> (result: UserStationsUpdate)
    ensures
        result@ == Update::start(names@, email@),
{
    UserStationsUpdate { state: State::ListingStations { names, email } }
}

} // verus!
