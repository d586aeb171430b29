//! Domain services.
pub mod condition_eval;
pub mod discord_oauth;
pub mod github;
pub mod github_oauth;
pub mod sync;
