//! The proxy core: shared state, rate limiting, upstream selection,
//! health checking and the per-connection state machine.

pub mod config;
pub mod connection;
pub mod forwarded;
pub mod framing;
pub mod health;
pub mod rate;
pub mod selector;
pub mod state;
