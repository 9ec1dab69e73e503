//! A terminal to-do front end: identifier assignment, snapshot parsing,
//! command argument resolution and the interactive list session.

pub mod text;
pub mod tags;
pub mod todo;
pub mod identifiers;
pub mod snapshot;
pub mod lists;
pub mod commands;
pub mod session;
pub mod reports;
