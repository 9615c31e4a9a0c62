//! What the command line configures, with its defaults.

use crate::proxy::rate::RateEntry;
use crate::proxy::state::{ConfigError, ProxyState};
use vstd::prelude::*;
use vstd::string::StringExecFns;

verus! {

/// The exit status of a proxy that cannot start: no upstream was named, or
/// the address to listen on cannot be bound.
pub const EXIT_STARTUP_FAILURE: i32 = 1;

/// The options of one invocation.
pub struct CmdOptions {
    /// Address and port to listen on.
    pub bind: String,
    /// Upstream hosts to forward requests to; at least one is needed.
    pub upstream: Vec<String>,
    /// Seconds between two health-check cycles.
    pub active_health_check_interval: usize,
    /// Path that a health probe asks for.
    pub active_health_check_path: String,
    /// Requests accepted per client address and minute; 0 means no limit.
    pub max_requests_per_minute: usize,
}

impl Default for CmdOptions {
    /// The options of an invocation without arguments: listen on every
    /// interface at port 1100, no upstream yet, a health check of `/` every
    /// ten seconds, no rate limit.
    fn default() -> (r: Self)
        ensures
            r.bind@ == "0.0.0.0:1100"@,
            r.upstream@.len() == 0,
            r.active_health_check_interval == 10,
            r.active_health_check_path@ == "/"@,
            r.max_requests_per_minute == 0,
    {
        CmdOptions {
            bind: String::from_str("0.0.0.0:1100"),
            upstream: Vec::new(),
            active_health_check_interval: 10,
            active_health_check_path: String::from_str("/"),
            max_requests_per_minute: 0,
        }
    }
}

impl CmdOptions {
    /// The proxy's state at startup: every upstream named is alive and no
    /// client has been seen. Options that name no upstream are refused.
    pub fn into_state(self) -> (r: Result<ProxyState, ConfigError>)
        ensures
            self.upstream@.len() == 0 <==> r is Err,
            r matches Err(e) ==> e == ConfigError::NoUpstreams,
            r matches Ok(s) ==> {
                &&& s@.interval == self.active_health_check_interval
                &&& s@.path == self.active_health_check_path@
                &&& s@.limit == self.max_requests_per_minute
                &&& s@.addresses == self.upstream@.map_values(|a: String| a@)
                &&& s@.alive == Seq::new(self.upstream@.len(), |i: int| true)
                &&& s@.clients == Map::<u128, RateEntry>::empty()
            },
    {
        ProxyState::new(
            self.upstream,
            self.active_health_check_interval,
            self.active_health_check_path,
            self.max_requests_per_minute,
        )
    }
}

} // verus!
