//! Helpers for the talk with the server.

pub mod api_service;
pub mod discovery;
