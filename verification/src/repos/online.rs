//! Services that work against a server.

pub mod online_transcode_repo;
