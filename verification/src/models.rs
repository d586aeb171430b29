//! Data model.
pub mod condition;
