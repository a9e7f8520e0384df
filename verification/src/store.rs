//! What a database that holds the subscriptions is expected to do.

use vstd::prelude::*;

use crate::database::{rail_line, station, user_station};
use crate::exchange::{Asked, Replied};
use crate::selection::{holds, law_lists_hold_what_stands_in_them};

verus! {

/// The contents of the database.
pub struct Store {
    /// The stations.
    pub stations: Set<station::Row>,
    /// The names of the lines that stop at each station.
    pub lines: Map<i32, Seq<Seq<char>>>,
    /// The email address of each user.
    pub users: Map<i32, Seq<char>>,
    /// The links between users and stations.
    pub links: Set<user_station::Model>,
}

impl Store {
    /// Ids tell stations apart, and a link has a user.
    pub open spec fn is_consistent(self) -> bool {
        &&& forall|a: station::Row, b: station::Row|
            #![trigger self.stations.contains(a), self.stations.contains(b)]
            self.stations.contains(a) && self.stations.contains(b) && a.id == b.id ==> a == b
        &&& forall|link: user_station::Model| #[trigger]
            self.links.contains(link) ==> self.users.contains_key(link.user_id)
    }

    /// A user has this email address.
    pub open spec fn has_email(self, email: Seq<char>) -> bool {
        exists|id: i32| #[trigger] self.users.contains_key(id) && self.users[id] == email
    }

    /// No two users have this email address.
    pub open spec fn is_unique(self, email: Seq<char>) -> bool {
        forall|a: i32, b: i32|
            #![trigger self.users.contains_key(a), self.users.contains_key(b)]
            self.users.contains_key(a) && self.users.contains_key(b) && self.users[a] == email
                && self.users[b] == email ==> a == b
    }

    /// A station has this id.
    pub open spec fn has_station(self, id: i32) -> bool {
        exists|row: station::Row| #[trigger] self.stations.contains(row) && row.id == id
    }

    /// The links of a user are `links`, each once.
    pub open spec fn is_list_of_links(self, user_id: i32, links: Seq<user_station::Model>) -> bool {
        &&& links.no_duplicates()
        &&& forall|link: user_station::Model| #[trigger]
            links.contains(link) <==> self.links.contains(link) && link.user_id == user_id
    }

    /// No key is inserted twice, and nothing is left to point at a missing row.
    pub open spec fn accepts(self, request: Asked) -> bool {
        match request {
            Asked::InsertUser(email) => !self.has_email(email),
            Asked::InsertUserStations(links) => {
                &&& links.no_duplicates()
                &&& forall|link: user_station::Model| #[trigger]
                    links.contains(link) ==> {
                        &&& !self.links.contains(link)
                        &&& self.users.contains_key(link.user_id)
                        &&& self.has_station(link.station_id)
                    }
            },
            Asked::DeleteUser(user_id) => forall|link: user_station::Model| #[trigger]
                self.links.contains(link) ==> link.user_id != user_id,
            _ => true,
        }
    }

    /// `reply` is a right answer to `request`, and leaves the contents `after`.
    pub open spec fn answers(self, request: Asked, reply: Replied, after: Store) -> bool {
        match (request, reply) {
            (Asked::ListStations, Replied::Stations(rows)) => {
                &&& after == self
                &&& is_list_of(rows, self.stations)
            },
            (Asked::ListStationLines(station_id), Replied::RailLines(rows)) => {
                &&& after == self
                &&& rows.len() == self.lines[station_id].len()
                &&& forall|i: int|
                    0 <= i < rows.len() ==> (#[trigger] rows[i]).name@ == self.lines[station_id][i]
            },
            (Asked::FindUser(email), Replied::Found(Some(user))) => {
                &&& after == self
                &&& user.email@ == email
                &&& self.users.contains_key(user.id)
                &&& self.users[user.id] == email
            },
            (Asked::FindUser(email), Replied::Found(None)) => after == self && !self.has_email(
                email,
            ),
            (Asked::InsertUser(email), Replied::Inserted(user)) => {
                &&& user.email@ == email
                &&& !self.users.contains_key(user.id)
                &&& after == Store { users: self.users.insert(user.id, email), ..self }
            },
            (Asked::ListUserStations(user_id), Replied::UserStations(links)) => {
                &&& after == self
                &&& self.is_list_of_links(user_id, links)
            },
            (Asked::ListSelectedStations(user_id), Replied::Stations(rows)) => {
                &&& after == self
                &&& is_list_of(rows, self.selected_by(user_id))
            },
            (Asked::DeleteUserStation(link), Replied::Done) => after == (Store {
                links: self.links.remove(link),
                ..self
            }),
            (Asked::DeleteUserStations(user_id), Replied::Done) => after == (Store {
                links: self.links_but_of(user_id),
                ..self
            }),
            (Asked::DeleteUser(user_id), Replied::Done) => after == (Store {
                users: self.users.remove(user_id),
                ..self
            }),
            (Asked::InsertUserStations(links), Replied::Done) => after == (Store {
                links: self.links.union(links.to_set()),
                ..self
            }),
            _ => false,
        }
    }

    /// What the database does: it answers what it accepts, and refuses the rest.
    pub open spec fn serves(self, request: Asked, reply: Replied, after: Store) -> bool {
        if self.accepts(request) {
            self.answers(request, reply, after)
        } else {
            reply is Failed && after == self
        }
    }

    /// The stations that a user is linked to.
    pub open spec fn selected_by(self, user_id: i32) -> Set<station::Row> {
        self.stations.filter(
            |row: station::Row|
                self.links.contains(user_station::Model { user_id, station_id: row.id }),
        )
    }

    /// The links of all users but one.
    pub open spec fn links_but_of(self, user_id: i32) -> Set<user_station::Model> {
        self.links.filter(|link: user_station::Model| link.user_id != user_id)
    }
}

/// The names of lines, in their order.
pub open spec fn line_names(lines: Seq<rail_line::Model>) -> Seq<Seq<char>> {
    lines.map_values(|line: rail_line::Model| line.name@)
}

/// `rows` lists `table`, each row once, in some order.
pub open spec fn is_list_of(rows: Seq<station::Model>, table: Set<station::Row>) -> bool {
    &&& forall|i: int, j: int|
        0 <= i < j < rows.len() ==> (#[trigger] rows[i])@ != (#[trigger] rows[j])@
    &&& forall|row: station::Row| #[trigger] holds(rows, row) <==> table.contains(row)
}

/// The names of lines are those of the lines, one by one.
pub proof fn law_line_names_are_of_the_lines(lines: Seq<rail_line::Model>)
    ensures
        line_names(lines).len() == lines.len(),
        forall|i: int| 0 <= i < lines.len() ==> #[trigger] line_names(lines)[i] == lines[i].name@,
{
}

/// The stations that a user is linked to are those with a link from the user to their id, and the
/// links of all users but one are the links that are not from that user.
pub proof fn law_links_join_users_and_stations(
    store: Store,
    user_id: i32,
    row: station::Row,
    link: user_station::Model,
)
    ensures
        store.selected_by(user_id).contains(row) <==> store.stations.contains(row)
            && store.links.contains(user_station::Model { user_id, station_id: row.id }),
        store.links_but_of(user_id).contains(link) <==> store.links.contains(link) && link.user_id
            != user_id,
{
}

/// A list of a table has each row of the table once, in both columns, and nothing else.
pub proof fn law_list_is_of_the_table(
    rows: Seq<station::Model>,
    table: Set<station::Row>,
    row: station::Row,
)
    requires
        is_list_of(rows, table),
    ensures
        table.contains(row) <==> exists|i: int|
            0 <= i < rows.len() && (#[trigger] rows[i]).id == row.id && rows[i].name@ == row.name,
        forall|i: int, j: int|
            0 <= i < j < rows.len() ==> (#[trigger] rows[i]).id != (#[trigger] rows[j]).id
                || rows[i].name@ != rows[j].name@,
{
    law_lists_hold_what_stands_in_them(Seq::empty(), Seq::empty(), rows, row, 0);
    assert(holds(rows, row) <==> table.contains(row));
    assert forall|i: int, j: int| 0 <= i < j < rows.len() implies (#[trigger] rows[i]).id != (
    #[trigger] rows[j]).id || rows[i].name@ != rows[j].name@ by {
        assert(rows[i]@ != rows[j]@);
    }
}

} // verus!
