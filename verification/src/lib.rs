//! Course-catalogue service logic: the in-memory catalogue, the database
//! row handling and error replies, and the text the health check answers.

pub mod clock;
pub mod database;
pub mod memory;
pub mod text;
