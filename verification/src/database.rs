//! The rows of the subscription database.

pub mod rail_line;
pub mod station;
pub mod user;
pub mod user_station;
