//! Tracks GitHub contribution activity and decides which Discord members
//! qualify for a role under admin-configured conditions.
pub mod config;
pub mod encoding;
pub mod error;
pub mod json;
pub mod models;
pub mod routes;
pub mod schema;
pub mod services;
pub mod strings;
pub mod tasks;
