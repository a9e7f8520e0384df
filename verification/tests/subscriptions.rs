//! Selecting stations, and the requests that change a subscription, against a database in memory.

use std::collections::{BTreeMap, BTreeSet};

use wmata_fire_alarm::database::{rail_line, station, user, user_station};
use wmata_fire_alarm::directory::{get_lines_raw, get_stations, StationListing};
use wmata_fire_alarm::error::{Cause, Error};
use wmata_fire_alarm::exchange::{Reply, Request};
use wmata_fire_alarm::removal::{delete_user, remove_user_by_email, UserRemoval};
use wmata_fire_alarm::selection::{
    filter_out_stations, get_stations_from_names, new_user_stations, user_stations_not_in_list,
};
use wmata_fire_alarm::update::{update_user_stations, UserStationsUpdate};

fn station(id: i32, name: &str) -> station::Model {
    station::Model { id, name: name.to_string() }
}

fn line(id: i32, name: &str) -> rail_line::Model {
    rail_line::Model { id, name: name.to_string() }
}

fn link(user_id: i32, station_id: i32) -> user_station::Model {
    user_station::Model { user_id, station_id }
}

fn texts(names: &[&str]) -> Vec<String> {
    names.iter().map(|name| name.to_string()).collect()
}

struct Database {
    stations: BTreeMap<i32, String>,
    lines: Vec<rail_line::Model>,
    stops: BTreeSet<(i32, i32)>,
    users: BTreeMap<i32, String>,
    links: BTreeSet<(i32, i32)>,
    failing: Option<usize>,
    served: Vec<String>,
}

impl Database {
    fn new() -> Database {
        let stations = [
            (6, "Ballston-MU"),
            (15, "Clarendon"),
            (20, "Court House"),
            (26, "East Falls Church"),
            (30, "Farragut West"),
            (33, "Foggy Bottom-GWU"),
            (42, "Greensboro"),
            (44, "Herndon"),
            (53, "McLean"),
            (54, "McPherson Square"),
            (69, "Reston Town Center"),
            (73, "Rosslyn"),
            (79, "Spring Hill"),
            (85, "Tysons"),
            (91, "Virginia Square-GMU"),
            (97, "Wiehle-Reston East"),
        ];
        Database {
            stations: stations.iter().map(|(id, name)| (*id, name.to_string())).collect(),
            lines: vec![
                line(1, "Red"),
                line(2, "Orange"),
                line(3, "Blue"),
                line(4, "Green"),
                line(5, "Yellow"),
                line(6, "Silver"),
            ],
            stops: [(6, 2), (6, 6), (73, 2), (73, 3), (73, 6), (85, 6)].into_iter().collect(),
            users: BTreeMap::new(),
            links: BTreeSet::new(),
            failing: None,
            served: Vec::new(),
        }
    }

    fn with_user(email: &str, station_ids: &[i32]) -> Database {
        let mut db = Database::new();
        db.users.insert(1, email.to_string());
        db.links = station_ids.iter().map(|id| (1, *id)).collect();
        db
    }

    fn user_stations(&self, user_id: i32) -> Vec<user_station::Model> {
        let links = self.links.iter().filter(|entry| entry.0 == user_id);
        links.map(|entry| link(entry.0, entry.1)).collect()
    }

    fn selected_stations(&self, user_id: i32) -> Vec<station::Model> {
        let links = self.links.iter().filter(|entry| entry.0 == user_id);
        links.map(|entry| station(entry.1, &self.stations[&entry.1])).collect()
    }

    fn all_stations(&self) -> Vec<station::Model> {
        self.stations.iter().map(|(id, name)| station(*id, name)).collect()
    }

    fn serve(&mut self, request: Request) -> Reply {
        self.served.push(format!("{:?}", request));
        if self.failing == Some(self.served.len() - 1) {
            return Reply::Failed(Cause {
                display: String::from("no more disk"),
                debug: String::from("Disk(Full)"),
            });
        }
        match request {
            Request::ListStations => Reply::Stations(self.all_stations()),
            Request::ListStationLines(id) => {
                let stops = |line: &&rail_line::Model| self.stops.contains(&(id, line.id));
                let lines = self.lines.iter().filter(stops);
                Reply::RailLines(lines.map(|entry| line(entry.id, &entry.name)).collect())
            }
            Request::FindUser(email) => {
                let found = self.users.iter().find(|(_, other)| **other == email);
                Reply::Found(found.map(|(id, email)| user::Model { id: *id, email: email.clone() }))
            }
            Request::InsertUser(email) => {
                let id = self.users.keys().max().unwrap_or(&0) + 1;
                self.users.insert(id, email.clone());
                Reply::Inserted(user::Model { id, email })
            }
            Request::ListUserStations(user_id) => Reply::UserStations(self.user_stations(user_id)),
            Request::ListSelectedStations(user_id) => {
                Reply::Stations(self.selected_stations(user_id))
            }
            Request::DeleteUserStation(link) => {
                assert!(self.links.remove(&(link.user_id, link.station_id)));
                Reply::Done
            }
            Request::DeleteUserStations(user_id) => {
                self.links.retain(|entry| entry.0 != user_id);
                Reply::Done
            }
            Request::DeleteUser(user_id) => {
                assert!(self.links.iter().all(|entry| entry.0 != user_id));
                assert!(self.users.remove(&user_id).is_some());
                Reply::Done
            }
            Request::InsertUserStations(links) => {
                for link in links {
                    assert!(self.users.contains_key(&link.user_id));
                    assert!(self.stations.contains_key(&link.station_id));
                    assert!(self.links.insert((link.user_id, link.station_id)));
                }
                Reply::Done
            }
        }
    }

    fn update(&mut self, names: &[&str], email: &str) -> Result<(), Error> {
        let mut update = update_user_stations(texts(names), email.to_string());
        while let Some(request) = update.request() {
            update = update.resume(self.serve(request));
        }
        update.finish().unwrap()
    }

    fn run_removal(&mut self, mut removal: UserRemoval) -> Result<(), Error> {
        while let Some(request) = removal.request() {
            removal = removal.resume(self.serve(request));
        }
        removal.finish().unwrap()
    }

    fn listing(&mut self) -> StationListing {
        let mut listing = get_stations();
        while let Some(request) = listing.request() {
            listing = listing.resume(self.serve(request));
        }
        listing
    }
}

#[test]
fn get_lines_raw_test() {
    let db = Database::new();
    let lines = get_lines_raw(db.lines);
    let expected =
        ["Red", "Orange", "Blue", "Green", "Yellow", "Silver"].map(|line| line.to_string());
    assert_eq!(lines, expected);
}

#[test]
fn delete_user_test() {
    let mut db = Database::with_user("", &[6, 15, 26, 42, 44, 53, 69, 79, 85, 91, 97]);
    let user = user::Model { id: 1, email: String::new() };
    db.run_removal(delete_user(user)).unwrap();
    assert!(db.users.is_empty());
    assert!(db.links.is_empty());
    assert_eq!(db.served, ["DeleteUserStations(1)", "DeleteUser(1)"]);
}

#[test]
fn get_stations_from_names_test() {
    let db = Database::new();
    let names = [
        "Herndon",
        "Reston Town Center",
        "Wiehle-Reston East",
        "Spring Hill",
        "Greensboro",
        "Tysons",
        "McLean",
        "East Falls Church",
        "Ballston-MU",
        "Virginia Square-GMU",
        "Clarendon",
    ]
    .map(|name| name.to_string());
    let stations = get_stations_from_names(db.all_stations(), &names);
    let expected = [
        station(6, "Ballston-MU"),
        station(15, "Clarendon"),
        station(26, "East Falls Church"),
        station(42, "Greensboro"),
        station(44, "Herndon"),
        station(53, "McLean"),
        station(69, "Reston Town Center"),
        station(79, "Spring Hill"),
        station(85, "Tysons"),
        station(91, "Virginia Square-GMU"),
        station(97, "Wiehle-Reston East"),
    ];
    assert_eq!(stations, expected);
}

#[test]
fn filter_out_stations_test() {
    let already_selected_stations = [
        station(44, "Herndon"),
        station(69, "Reston Town Center"),
        station(97, "Wiehle-Reston East"),
        station(79, "Spring Hill"),
        station(42, "Greensboro"),
    ];

    let mut stations = vec![
        station(44, "Herndon"),
        station(69, "Reston Town Center"),
        station(97, "Wiehle-Reston East"),
        station(79, "Spring Hill"),
        station(42, "Greensboro"),
        station(85, "Tysons"),
        station(53, "McLean"),
        station(26, "East Falls Church"),
        station(6, "Ballston-MU"),
        station(91, "Virginia Square-GMU"),
        station(15, "Clarendon"),
    ];

    filter_out_stations(&mut stations, &already_selected_stations);

    let expected = [
        station(85, "Tysons"),
        station(53, "McLean"),
        station(26, "East Falls Church"),
        station(6, "Ballston-MU"),
        station(91, "Virginia Square-GMU"),
        station(15, "Clarendon"),
    ];

    assert_eq!(stations, expected);
}

#[test]
fn remove_already_selected_stations_test() {
    let already_selected_stations = [
        station(44, "Herndon"),
        station(69, "Reston Town Center"),
        station(97, "Wiehle-Reston East"),
        station(79, "Spring Hill"),
        station(42, "Greensboro"),
    ];
    let ids = already_selected_stations.map(|station| station.id);
    let db = Database::with_user("", &ids);

    let mut stations = vec![
        station(44, "Herndon"),
        station(69, "Reston Town Center"),
        station(97, "Wiehle-Reston East"),
        station(79, "Spring Hill"),
        station(42, "Greensboro"),
        station(85, "Tysons"),
        station(53, "McLean"),
        station(26, "East Falls Church"),
        station(6, "Ballston-MU"),
        station(91, "Virginia Square-GMU"),
        station(15, "Clarendon"),
    ];

    filter_out_stations(&mut stations, &db.selected_stations(1));

    let expected = [
        station(85, "Tysons"),
        station(53, "McLean"),
        station(26, "East Falls Church"),
        station(6, "Ballston-MU"),
        station(91, "Virginia Square-GMU"),
        station(15, "Clarendon"),
    ];

    assert_eq!(stations, expected);
}

#[test]
fn delete_user_stations_not_in_list_test() {
    let stations = vec![
        station(44, "Herndon"),
        station(69, "Reston Town Center"),
        station(97, "Wiehle-Reston East"),
        station(79, "Spring Hill"),
        station(42, "Greensboro"),
        station(85, "Tysons"),
        station(53, "McLean"),
        station(26, "East Falls Church"),
        station(6, "Ballston-MU"),
        station(91, "Virginia Square-GMU"),
        station(15, "Clarendon"),
    ];
    let ids: Vec<i32> = stations.iter().map(|station| station.id).collect();
    let mut db = Database::with_user("", &ids);

    let expected = [
        station(42, "Greensboro"),
        station(44, "Herndon"),
        station(69, "Reston Town Center"),
        station(79, "Spring Hill"),
        station(97, "Wiehle-Reston East"),
    ];

    let stale = user_stations_not_in_list(db.user_stations(1), &expected);
    assert_eq!(stale, [6, 15, 26, 53, 85, 91].map(|id| link(1, id)));
    for link in stale {
        db.serve(Request::DeleteUserStation(link));
    }

    let result = db.selected_stations(1);
    assert_eq!(result, expected);
}

#[test]
fn delete_not_selected_user_stations_test() {
    let stations = [
        station(44, "Herndon"),
        station(69, "Reston Town Center"),
        station(97, "Wiehle-Reston East"),
        station(79, "Spring Hill"),
        station(42, "Greensboro"),
        station(85, "Tysons"),
        station(53, "McLean"),
        station(26, "East Falls Church"),
        station(6, "Ballston-MU"),
        station(91, "Virginia Square-GMU"),
        station(15, "Clarendon"),
    ];
    let mut db = Database::with_user("", &stations.map(|station| station.id));

    let selected_stations = vec![
        station(85, "Tysons"),
        station(53, "McLean"),
        station(26, "East Falls Church"),
        station(6, "Ballston-MU"),
        station(91, "Virginia Square-GMU"),
        station(15, "Clarendon"),
    ];

    let mut expected = selected_stations.clone();
    expected.sort_by_key(|station| station.id);

    let names: Vec<&str> = selected_stations.iter().map(|entry| entry.name.as_str()).collect();
    db.update(&names, "").unwrap();
    assert_eq!(db.served.last().unwrap(), "InsertUserStations([])");

    let current_stations = db.selected_stations(1);
    assert_eq!(current_stations, expected);
}

#[test]
fn update_user_stations_test_new_user() {
    let mut db = Database::new();
    let stations = [
        "Herndon",
        "Reston Town Center",
        "Wiehle-Reston East",
        "Spring Hill",
        "Greensboro",
        "Tysons",
        "McLean",
        "East Falls Church",
        "Ballston-MU",
        "Virginia Square-GMU",
        "Clarendon",
    ];
    db.update(&stations, "general.konobi@jedi.com").unwrap();

    assert_eq!(db.users[&1], "general.konobi@jedi.com");
    let user_stations = db.user_stations(1);
    let expected = [6, 15, 26, 42, 44, 53, 69, 79, 85, 91, 97].map(|id| link(1, id));
    assert_eq!(user_stations, expected);
}

fn update_user_stations_existing_user_test_framework(
    starting_stations: &[station::Model],
    stations: &[&str],
) -> Result<Vec<station::Model>, Error> {
    let ids: Vec<i32> = starting_stations.iter().map(|station| station.id).collect();
    let mut db = Database::with_user("", &ids);
    db.update(stations, "")?;
    Ok(db.selected_stations(1))
}

#[test]
fn update_user_stations_test_add_stations() {
    let starting_stations = [
        station(44, "Herndon"),
        station(69, "Reston Town Center"),
        station(97, "Wiehle-Reston East"),
        station(79, "Spring Hill"),
        station(42, "Greensboro"),
    ];

    let stations = [
        "Herndon",
        "Reston Town Center",
        "Wiehle-Reston East",
        "Spring Hill",
        "Greensboro",
        "Tysons",
        "McLean",
        "East Falls Church",
        "Ballston-MU",
        "Virginia Square-GMU",
        "Clarendon",
    ];

    let expected = [
        station(6, "Ballston-MU"),
        station(15, "Clarendon"),
        station(26, "East Falls Church"),
        station(42, "Greensboro"),
        station(44, "Herndon"),
        station(53, "McLean"),
        station(69, "Reston Town Center"),
        station(79, "Spring Hill"),
        station(85, "Tysons"),
        station(91, "Virginia Square-GMU"),
        station(97, "Wiehle-Reston East"),
    ];

    assert_eq!(stations.len(), expected.len());
    let result =
        update_user_stations_existing_user_test_framework(&starting_stations, &stations).unwrap();
    assert_eq!(result, expected);
}

#[test]
fn update_user_stations_test_remove_stations() {
    let starting_stations = [
        station(44, "Herndon"),
        station(69, "Reston Town Center"),
        station(97, "Wiehle-Reston East"),
        station(79, "Spring Hill"),
        station(42, "Greensboro"),
        station(85, "Tysons"),
        station(53, "McLean"),
        station(26, "East Falls Church"),
        station(6, "Ballston-MU"),
        station(91, "Virginia Square-GMU"),
        station(15, "Clarendon"),
    ];

    let stations = [
        "Herndon",
        "Reston Town Center",
        "Wiehle-Reston East",
        "Spring Hill",
        "Greensboro",
    ];

    let expected = [
        station(42, "Greensboro"),
        station(44, "Herndon"),
        station(69, "Reston Town Center"),
        station(79, "Spring Hill"),
        station(97, "Wiehle-Reston East"),
    ];

    assert_eq!(stations.len(), expected.len());
    let result =
        update_user_stations_existing_user_test_framework(&starting_stations, &stations).unwrap();
    assert_eq!(result, expected);
}

#[test]
fn update_user_stations_test_add_remove_stations() {
    let starting_stations = [
        station(44, "Herndon"),
        station(69, "Reston Town Center"),
        station(97, "Wiehle-Reston East"),
        station(79, "Spring Hill"),
        station(42, "Greensboro"),
        station(85, "Tysons"),
        station(53, "McLean"),
        station(26, "East Falls Church"),
        station(6, "Ballston-MU"),
        station(91, "Virginia Square-GMU"),
        station(15, "Clarendon"),
    ];

    let stations = [
        "Tysons",
        "McLean",
        "East Falls Church",
        "Ballston-MU",
        "Virginia Square-GMU",
        "Clarendon",
        "Court House",
        "Rosslyn",
        "Foggy Bottom-GWU",
        "Farragut West",
        "McPherson Square",
    ];

    let expected = [
        station(6, "Ballston-MU"),
        station(15, "Clarendon"),
        station(20, "Court House"),
        station(26, "East Falls Church"),
        station(30, "Farragut West"),
        station(33, "Foggy Bottom-GWU"),
        station(53, "McLean"),
        station(54, "McPherson Square"),
        station(73, "Rosslyn"),
        station(85, "Tysons"),
        station(91, "Virginia Square-GMU"),
    ];

    assert_eq!(stations.len(), expected.len());
    let result =
        update_user_stations_existing_user_test_framework(&starting_stations, &stations).unwrap();
    assert_eq!(result, expected);
}

#[test]
fn stations_are_compared_in_every_column() {
    let mut stations = vec![station(6, "Ballston-MU"), station(15, "Clarendon")];
    filter_out_stations(&mut stations, &[station(6, "Clarendon"), station(15, "Clarendon")]);
    assert_eq!(stations, [station(6, "Ballston-MU")]);
}

#[test]
fn names_that_no_station_has_select_nothing() {
    let db = Database::new();
    assert!(get_stations_from_names(db.all_stations(), &texts(&["rosslyn", ""])).is_empty());
    assert!(get_stations_from_names(db.all_stations(), &[]).is_empty());
    let twice = texts(&["Rosslyn", "Rosslyn"]);
    assert_eq!(get_stations_from_names(db.all_stations(), &twice), [station(73, "Rosslyn")]);
}

#[test]
fn new_links_follow_the_stations() {
    let stations = [station(85, "Tysons"), station(6, "Ballston-MU")];
    assert_eq!(new_user_stations(9, &stations), [link(9, 85), link(9, 6)]);
    assert!(new_user_stations(9, &[]).is_empty());
}

#[test]
fn update_asks_in_order() {
    let mut db = Database::with_user("leia@alderaan.org", &[6, 15]);
    db.update(&["Clarendon", "Rosslyn"], "leia@alderaan.org").unwrap();
    assert_eq!(
        db.served,
        [
            "ListStations",
            "FindUser(\"leia@alderaan.org\")",
            "ListUserStations(1)",
            "DeleteUserStation(Model { user_id: 1, station_id: 6 })",
            "ListSelectedStations(1)",
            "InsertUserStations([Model { user_id: 1, station_id: 73 }])",
        ]
    );
}

#[test]
fn update_without_names_leaves_no_link() {
    let mut db = Database::with_user("leia@alderaan.org", &[6, 15]);
    db.users.insert(2, String::from("han@falcon.org"));
    db.links.insert((2, 6));
    db.update(&[], "leia@alderaan.org").unwrap();
    assert!(db.user_stations(1).is_empty());
    assert_eq!(db.users.len(), 2);
    assert_eq!(db.user_stations(2), [link(2, 6)]);
}

#[test]
fn each_moment_of_an_update_keeps_what_stays() {
    let mut db = Database::with_user("leia@alderaan.org", &[6, 15, 97]);
    db.users.insert(2, String::from("han@falcon.org"));
    db.links.insert((2, 6));
    let names = texts(&["Clarendon", "Rosslyn"]);
    let mut update = update_user_stations(names, String::from("leia@alderaan.org"));
    while let Some(request) = update.request() {
        update = update.resume(db.serve(request));
        assert!(db.links.contains(&(1, 15)));
        assert_eq!(db.user_stations(2), [link(2, 6)]);
        assert_eq!(db.users[&2], "han@falcon.org");
    }
    assert_eq!(db.user_stations(1), [link(1, 15), link(1, 73)]);
}

#[test]
fn order_and_repeats_of_names_do_not_matter() {
    let lists: [&[&str]; 3] = [
        &["Clarendon", "Rosslyn"],
        &["Rosslyn", "Clarendon", "Rosslyn"],
        &["Hoth", "Rosslyn", "", "Clarendon"],
    ];
    for station_ids in [&[6, 15][..], &[]] {
        for names in lists {
            let mut db = Database::with_user("leia@alderaan.org", station_ids);
            db.update(names, "leia@alderaan.org").unwrap();
            assert_eq!(db.users.len(), 1);
            assert_eq!(db.user_stations(1), [link(1, 15), link(1, 73)]);
        }
    }
    for names in lists {
        let mut db = Database::new();
        db.update(names, "leia@alderaan.org").unwrap();
        assert_eq!(db.users, [(1, String::from("leia@alderaan.org"))].into_iter().collect());
        assert_eq!(db.user_stations(1), [link(1, 15), link(1, 73)]);
    }
}

#[test]
fn each_moment_of_a_removal_keeps_the_others() {
    let mut db = Database::with_user("leia@alderaan.org", &[6, 15]);
    db.users.insert(2, String::from("han@falcon.org"));
    db.links.insert((2, 6));
    let mut removal = remove_user_by_email(String::from("leia@alderaan.org"));
    while let Some(request) = removal.request() {
        removal = removal.resume(db.serve(request));
        assert_eq!(db.users[&2], "han@falcon.org");
        assert_eq!(db.user_stations(2), [link(2, 6)]);
        assert!(db.users.contains_key(&1) || db.user_stations(1).is_empty());
    }
}

#[test]
fn last_update_wins() {
    let mut db = Database::with_user("leia@alderaan.org", &[6]);
    db.users.insert(2, String::from("han@falcon.org"));
    db.links.insert((2, 6));
    db.update(&["Clarendon", "Rosslyn"], "leia@alderaan.org").unwrap();
    db.update(&["Rosslyn", "Tysons"], "leia@alderaan.org").unwrap();
    assert_eq!(db.user_stations(1), [link(1, 73), link(1, 85)]);
    assert_eq!(db.user_stations(2), [link(2, 6)]);
    assert_eq!(db.users.len(), 2);
}

#[test]
fn deletion_of_a_found_user_leaves_the_others() {
    let mut db = Database::with_user("leia@alderaan.org", &[6, 15]);
    db.users.insert(2, String::from("han@falcon.org"));
    db.links.insert((2, 6));
    db.run_removal(delete_user(user::Model { id: 1, email: String::new() })).unwrap();
    assert_eq!(db.users, [(2, String::from("han@falcon.org"))].into_iter().collect());
    assert_eq!(db.links, [(2, 6)].into_iter().collect());
}

#[test]
fn second_update_changes_nothing() {
    let mut db = Database::with_user("leia@alderaan.org", &[6, 15]);
    db.update(&["Clarendon", "Rosslyn"], "leia@alderaan.org").unwrap();
    let links = db.links.clone();
    db.served.clear();
    db.update(&["Clarendon", "Rosslyn"], "leia@alderaan.org").unwrap();
    assert_eq!(db.links, links);
    assert!(db.served.iter().all(|request| !request.starts_with("Delete")));
    assert_eq!(db.served.last().unwrap(), "InsertUserStations([])");
}

#[test]
fn update_stops_at_the_first_failure() {
    for failing in 0..6 {
        let mut db = Database::with_user("leia@alderaan.org", &[6, 15]);
        db.failing = Some(failing);
        let error = db.update(&["Clarendon", "Rosslyn"], "leia@alderaan.org").unwrap_err();
        assert_eq!(error.into_response(), (500, String::from("DbError(Disk(Full))")));
        assert_eq!(db.served.len(), failing + 1);
    }
}

#[test]
fn reply_to_another_request_is_not_taken() {
    let update: UserStationsUpdate = update_user_stations(Vec::new(), String::from("a@b.org"));
    let update = update.resume(Reply::Done);
    assert!(matches!(update.request(), Some(Request::ListStations)));
    assert!(update.finish().is_none());

    let user = user::Model { id: 7, email: String::from("a@b.org") };
    let removal = delete_user(user).resume(Reply::Stations(Vec::new()));
    assert!(matches!(removal.request(), Some(Request::DeleteUserStations(7))));
    assert!(removal.finish().is_none());

    let listing = get_stations().resume(Reply::Done);
    assert!(matches!(listing.request(), Some(Request::ListStations)));
    assert!(listing.finish().is_none());
}

#[test]
fn removal_removes_one_user() {
    let mut db = Database::with_user("leia@alderaan.org", &[6, 15]);
    db.users.insert(2, String::from("han@falcon.org"));
    db.links.insert((2, 6));
    db.run_removal(remove_user_by_email(String::from("leia@alderaan.org"))).unwrap();
    assert_eq!(db.users, [(2, String::from("han@falcon.org"))].into_iter().collect());
    assert_eq!(db.links, [(2, 6)].into_iter().collect());

    db.served.clear();
    db.run_removal(remove_user_by_email(String::from("leia@alderaan.org"))).unwrap();
    assert_eq!(db.served, ["FindUser(\"leia@alderaan.org\")"]);
}

#[test]
fn removal_stops_at_the_first_failure() {
    for failing in 0..3 {
        let mut db = Database::with_user("leia@alderaan.org", &[6, 15]);
        db.failing = Some(failing);
        let removal = remove_user_by_email(String::from("leia@alderaan.org"));
        let error = db.run_removal(removal).unwrap_err();
        assert_eq!(error.to_string(), "Database Error: no more disk");
        assert_eq!(db.served.len(), failing + 1);
        assert!(db.users.contains_key(&1));
    }
}

#[test]
fn every_station_is_listed_with_its_lines() {
    let mut db = Database::new();
    let entries = match db.listing().finish() {
        Some(Ok(entries)) => entries,
        _ => panic!("the list is not finished"),
    };
    assert_eq!(entries.len(), 16);
    assert_eq!(entries[0].name, "Ballston-MU");
    assert_eq!(entries[0].lines, ["Orange", "Silver"]);
    assert_eq!(entries[11].name, "Rosslyn");
    assert_eq!(entries[11].lines, ["Orange", "Blue", "Silver"]);
    assert_eq!(entries[15].name, "Wiehle-Reston East");
    assert!(entries[15].lines.is_empty());
    assert_eq!(db.served.len(), 17);
}

#[test]
fn list_of_no_stations_is_empty() {
    let mut db = Database::new();
    db.stations.clear();
    assert!(matches!(db.listing().finish(), Some(Ok(entries)) if entries.is_empty()));
}

#[test]
fn list_stops_at_the_first_failure() {
    for failing in 0..17 {
        let mut db = Database::new();
        db.failing = Some(failing);
        assert!(matches!(db.listing().finish(), Some(Err(Error::DbError(_)))));
        assert_eq!(db.served.len(), failing + 1);
    }
}
