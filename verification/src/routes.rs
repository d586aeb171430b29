//! Request handling logic.
pub mod verification;
