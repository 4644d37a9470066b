//! The services behind the commands.

pub mod offline;
pub mod online;
