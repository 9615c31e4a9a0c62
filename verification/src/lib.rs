//! A load-balancing reverse proxy core, together with the small data
//! structures and number routines that accompany it.
//!
//! The proxy's decisions are pure functions over an explicitly owned
//! [`proxy::state::ProxyState`]; sockets, timers and tasks live with the caller.

pub mod articles;
pub mod debugger;
pub mod generics;
pub mod lists;
pub mod luck;
pub mod numerals;
pub mod parallel;
pub mod primes;
pub mod proxy;
pub mod random;
pub mod tickets;
