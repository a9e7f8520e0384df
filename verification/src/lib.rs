//! Subscriptions to the WMATA fire alarm: who may change a subscription, what the change does to
//! the database, and what the subscriber is told.

pub mod address;
pub mod auth;
pub mod database;
pub mod directory;
pub mod error;
pub mod exchange;
pub mod mail;
pub mod pending;
pub mod removal;
pub mod selection;
pub mod store;
pub mod submission;
pub mod text;
pub mod timer;
pub mod update;
pub mod update_dialogue;
pub mod update_laws;
