//! A resource-bounded media pipeline: a cached, admission-controlled thumbnail
//! service and a single-flight video transcode supervisor, together with the
//! data model they share.
//!
//! Everything here is plain computation with a contract. Subprocesses, files,
//! timers and the notification channel are the caller's business: the library
//! says which action comes next, the caller performs it and reports back.

pub mod models;
pub mod utils;
pub mod repos;
pub mod commands;
pub mod services;
