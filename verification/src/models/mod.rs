//! The records the tracker works on.

pub mod budget;
pub mod transaction;
