//! The data model: errors, responses and status records.

pub mod api_response;
pub mod error;
pub mod favorite;
pub mod file_info;
pub mod files;
pub mod response;
pub mod transcode;
