//! Data-and-command layer of a personal productivity store: areas,
//! projects, tasks, notes and inbox items, the checks each write must pass,
//! the lifecycles of their states, and the note-summary chat exchange.
//!
//! Every operation works on a [`db::Db`] handed to it.  Operations that
//! stamp a row take the current time `now` from the host, as the text the
//! row will hold.

pub mod areas;
pub mod chat;
pub mod db;
pub mod error;
pub mod ids;
pub mod inbox;
pub mod laws;
pub mod model;
pub mod notes;
pub mod order;
pub mod projects;
pub mod tasks;
pub mod text;
