//! The dashboard: its navigation state machine and the contents of each
//! screen, computed from the loaded transactions and budgets.

pub mod app;
pub mod screens;
