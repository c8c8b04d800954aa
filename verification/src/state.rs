//! The editor state machine and its operation vocabulary.

pub mod fsm;
pub mod ops;
