//! Background tasks.
pub mod refresh_worker;
