//! Services that work on the local directory tree.

pub mod hwaccel;
pub mod imaging;
pub mod offline_files_repo;
pub mod offline_thumbnails_repo;
pub mod offline_transcode_repo;
pub mod progress;
