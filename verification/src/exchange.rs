//! What is asked of the database, and what it replies.

use vstd::prelude::*;

use crate::database::{rail_line, station, user, user_station};
use crate::error::Cause;

verus! {

/// A request to the database.
#[derive(Debug)]
pub enum Request {
    /// All stations.
    ListStations,
    /// The lines that stop at a station.
    ListStationLines(i32),
    /// A user with this email address.
    FindUser(String),
    /// A new user with this email address.
    InsertUser(String),
    /// The links of a user.
    ListUserStations(i32),
    /// The stations that a user is linked to.
    ListSelectedStations(i32),
    /// One link goes.
    DeleteUserStation(user_station::Model),
    /// All links of a user go.
    DeleteUserStations(i32),
    /// A user goes.
    DeleteUser(i32),
    /// New links; where there are none, nothing is done.
    InsertUserStations(Vec<user_station::Model>),
}

/// A reply of the database.
#[derive(Debug)]
pub enum Reply {
    Stations(Vec<station::Model>),
    RailLines(Vec<rail_line::Model>),
    Found(Option<user::Model>),
    Inserted(user::Model),
    UserStations(Vec<user_station::Model>),
    Done,
    Failed(Cause),
}

/// A request, as a value of mathematics.
pub enum Asked {
    ListStations,
    ListStationLines(i32),
    FindUser(Seq<char>),
    InsertUser(Seq<char>),
    ListUserStations(i32),
    ListSelectedStations(i32),
    DeleteUserStation(user_station::Model),
    DeleteUserStations(i32),
    DeleteUser(i32),
    InsertUserStations(Seq<user_station::Model>),
}

/// A reply, as a value of mathematics.
pub enum Replied {
    Stations(Seq<station::Model>),
    RailLines(Seq<rail_line::Model>),
    Found(Option<user::Model>),
    Inserted(user::Model),
    UserStations(Seq<user_station::Model>),
    Done,
    Failed(Cause),
}

impl View for Request {
    type V = Asked;

    open spec fn view(&self) -> Asked {
        match *self {
            Request::ListStations => Asked::ListStations,
            Request::ListStationLines(station_id) => Asked::ListStationLines(station_id),
            Request::FindUser(email) => Asked::FindUser(email@),
            Request::InsertUser(email) => Asked::InsertUser(email@),
            Request::ListUserStations(user_id) => Asked::ListUserStations(user_id),
            Request::ListSelectedStations(user_id) => Asked::ListSelectedStations(user_id),
            Request::DeleteUserStation(link) => Asked::DeleteUserStation(link),
            Request::DeleteUserStations(user_id) => Asked::DeleteUserStations(user_id),
            Request::DeleteUser(user_id) => Asked::DeleteUser(user_id),
            Request::InsertUserStations(links) => Asked::InsertUserStations(links@),
        }
    }
}

impl View for Reply {
    type V = Replied;

    open spec fn view(&self) -> Replied {
        match *self {
            Reply::Stations(rows) => Replied::Stations(rows@),
            Reply::RailLines(rows) => Replied::RailLines(rows@),
            Reply::Found(user) => Replied::Found(user),
            Reply::Inserted(user) => Replied::Inserted(user),
            Reply::UserStations(rows) => Replied::UserStations(rows@),
            Reply::Done => Replied::Done,
            Reply::Failed(cause) => Replied::Failed(cause),
        }
    }
}

/// A request to the database, as a value of mathematics, is the request, whatever it holds.
pub proof fn law_requests_ask_what_they_hold(
    id: i32,
    email: String,
    link: user_station::Model,
    links: Vec<user_station::Model>,
)
    ensures
        Request::ListStations@ == Asked::ListStations,
        Request::ListStationLines(id)@ == Asked::ListStationLines(id),
        Request::FindUser(email)@ == Asked::FindUser(email@),
        Request::InsertUser(email)@ == Asked::InsertUser(email@),
        Request::ListUserStations(id)@ == Asked::ListUserStations(id),
        Request::ListSelectedStations(id)@ == Asked::ListSelectedStations(id),
        Request::DeleteUserStation(link)@ == Asked::DeleteUserStation(link),
        Request::DeleteUserStations(id)@ == Asked::DeleteUserStations(id),
        Request::DeleteUser(id)@ == Asked::DeleteUser(id),
        Request::InsertUserStations(links)@ == Asked::InsertUserStations(links@),
{
}

/// A reply of the database, as a value of mathematics, is the reply, whatever it holds.
pub proof fn law_replies_say_what_they_hold(
    stations: Vec<station::Model>,
    lines: Vec<rail_line::Model>,
    found: Option<user::Model>,
    user: user::Model,
    links: Vec<user_station::Model>,
    cause: Cause,
)
    ensures
        Reply::Stations(stations)@ == Replied::Stations(stations@),
        Reply::RailLines(lines)@ == Replied::RailLines(lines@),
        Reply::Found(found)@ == Replied::Found(found),
        Reply::Inserted(user)@ == Replied::Inserted(user),
        Reply::UserStations(links)@ == Replied::UserStations(links@),
        Reply::Done@ == Replied::Done,
        Reply::Failed(cause)@ == Replied::Failed(cause),
{
}

} // verus!
