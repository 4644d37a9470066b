//! What the user interface asks for.

pub mod config;
pub mod thumbnail;
