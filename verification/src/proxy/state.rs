//! The shared record of configured upstreams, their liveness and the
//! per-client request counters.

use crate::proxy::rate::{decide, decision, RateEntry, RateVerdict};
use std::collections::HashMap;
use vstd::prelude::*;

verus! {

/// A backend server: its address as configured, and whether it is currently
/// believed to be reachable.
pub struct Upstream {
    pub address: String,
    pub alive: bool,
}

/// Why a configuration is refused.
#[derive(Clone, Copy, Debug, PartialEq, Eq, Structural)]
pub enum ConfigError {
    /// No upstream was named.
    NoUpstreams,
}

/// The mathematical content of a [`ProxyState`].
pub struct ProxyModel {
    /// Seconds between two health-check cycles.
    pub interval: nat,
    /// Path that a health probe asks for.
    pub path: Seq<char>,
    /// Requests admitted per client and window; 0 switches the limit off.
    pub limit: nat,
    /// Upstream addresses, in configuration order.
    pub addresses: Seq<Seq<char>>,
    /// Liveness of each upstream, in the same order.
    pub alive: Seq<bool>,
    /// The counter of every client seen so far.
    pub clients: Map<u128, RateEntry>,
}

/// Number of `true` entries in `alive`.
pub open spec fn live_count(alive: Seq<bool>) -> nat
    decreases alive.len(),
{
    if alive.len() == 0 {
        0
    } else {
        live_count(alive.drop_last()) + if alive.last() {
            1nat
        } else {
            0nat
        }
    }
}

/// `i` is the position of the `k`-th live entry of `alive`, counting from 0.
pub open spec fn is_kth_live(alive: Seq<bool>, k: nat, i: int) -> bool {
    &&& 0 <= i < alive.len()
    &&& alive[i]
    &&& live_count(alive.take(i)) == k
}

/// The addresses of the live upstreams, in configuration order.
pub open spec fn live_addresses_of(addresses: Seq<Seq<char>>, alive: Seq<bool>) -> Seq<Seq<char>>
    recommends
        addresses.len() == alive.len(),
    decreases alive.len(),
{
    if alive.len() == 0 || addresses.len() != alive.len() {
        Seq::empty()
    } else if alive.last() {
        live_addresses_of(addresses.drop_last(), alive.drop_last()).push(addresses.last())
    } else {
        live_addresses_of(addresses.drop_last(), alive.drop_last())
    }
}

/// Liveness after every upstream whose address is `address` was set to `alive`.
pub open spec fn marked(
    addresses: Seq<Seq<char>>,
    before: Seq<bool>,
    address: Seq<char>,
    alive: bool,
) -> Seq<bool> {
    Seq::new(
        before.len(),
        |i: int|
            if addresses[i] == address {
                alive
            } else {
                before[i]
            },
    )
}

/// The entry recorded for `client`, if any.
pub open spec fn entry_of(clients: Map<u128, RateEntry>, client: u128) -> Option<RateEntry> {
    if clients.contains_key(client) {
        Some(clients[client])
    } else {
        None
    }
}

/// The counters after `entry` was stored for `client`; unchanged for `None`.
pub open spec fn recorded(clients: Map<u128, RateEntry>, client: u128, entry: Option<RateEntry>) -> Map<
    u128,
    RateEntry,
> {
    match entry {
        Some(e) => clients.insert(client, e),
        None => clients,
    }
}

/// Clients are counted apart: what is recorded for one client leaves the
/// entry of every other client as it was.
pub proof fn lemma_clients_are_counted_apart(
    clients: Map<u128, RateEntry>,
    client: u128,
    entry: Option<RateEntry>,
    other: u128,
)
    requires
        other != client,
    ensures
        entry_of(recorded(clients, client, entry), other) == entry_of(clients, other),
{
}

/// A prefix of the table holds no more live entries than the whole.
pub proof fn lemma_live_count_monotone(alive: Seq<bool>, i: int)
    requires
        0 <= i <= alive.len(),
    ensures
        live_count(alive.take(i)) <= live_count(alive),
    decreases alive.len() - i,
{
    if i < alive.len() {
        lemma_live_count_step(alive, i);
        lemma_live_count_monotone(alive, i + 1);
    } else {
        assert(alive.take(i) =~= alive);
    }
}

/// There are at most as many live entries as entries, and none exactly
/// where every entry is dead.
pub proof fn lemma_live_count_bounds(alive: Seq<bool>)
    ensures
        live_count(alive) <= alive.len(),
        live_count(alive) == 0 <==> (forall|i: int| 0 <= i < alive.len() ==> !alive[i]),
    decreases alive.len(),
{
    if alive.len() > 0 {
        lemma_live_count_bounds(alive.drop_last());
        if live_count(alive) == 0 {
            assert forall|i: int| 0 <= i < alive.len() implies !alive[i] by {
                if i < alive.len() - 1 {
                    assert(alive.drop_last()[i] == alive[i]);
                }
            }
        } else if !alive.last() {
            let j = choose|j: int| 0 <= j < alive.drop_last().len() && alive.drop_last()[j];
            assert(alive[j]);
        }
    }
}

/// One more entry adds one to the count if it is live and nothing otherwise.
pub proof fn lemma_live_count_step(alive: Seq<bool>, i: int)
    requires
        0 <= i < alive.len(),
    ensures
        live_count(alive.take(i + 1)) == live_count(alive.take(i)) + if alive[i] {
            1nat
        } else {
            0nat
        },
{
    assert(alive.take(i + 1).drop_last() =~= alive.take(i));
}

/// Everything the proxy's tasks share: the configuration, the liveness table
/// and the rate counters.
pub struct ProxyState {
    active_health_check_interval: usize,
    active_health_check_path: String,
    max_requests_per_minute: usize,
    upstreams: Vec<Upstream>,
    client_requests: HashMap<u128, RateEntry>,
}

impl View for ProxyState {
    type V = ProxyModel;

    closed spec fn view(&self) -> ProxyModel {
        ProxyModel {
            interval: self.active_health_check_interval as nat,
            path: self.active_health_check_path@,
            limit: self.max_requests_per_minute as nat,
            addresses: Seq::new(self.upstreams@.len(), |i: int| self.upstreams@[i].address@),
            alive: Seq::new(self.upstreams@.len(), |i: int| self.upstreams@[i].alive),
            clients: self.client_requests@,
        }
    }
}

impl ProxyState {
    /// Builds the state for the given configuration. Every upstream starts
    /// alive and no client has been seen. A configuration without upstreams
    /// is refused.
    pub fn new(
        upstream: Vec<String>,
        active_health_check_interval: usize,
        active_health_check_path: String,
        max_requests_per_minute: usize,
    ) -> (r: Result<ProxyState, ConfigError>)
        ensures
            upstream@.len() == 0 <==> r is Err,
            r matches Err(e) ==> e == ConfigError::NoUpstreams,
            r matches Ok(s) ==> {
                &&& s@.interval == active_health_check_interval
                &&& s@.path == active_health_check_path@
                &&& s@.limit == max_requests_per_minute
                &&& s@.addresses == upstream@.map_values(|a: String| a@)
                &&& s@.alive == Seq::new(upstream@.len(), |i: int| true)
                &&& s@.clients == Map::<u128, RateEntry>::empty()
            },
    {
        if upstream.len() == 0 {
            return Err(ConfigError::NoUpstreams);
        }
        let mut upstreams: Vec<Upstream> = Vec::new();
        let mut i: usize = 0;
        while i < upstream.len()
            invariant
                i <= upstream.len(),
                upstreams@.len() == i,
                forall|j: int|
                    0 <= j < i ==> upstreams@[j].alive && upstreams@[j].address@ == upstream@[j]@,
            decreases upstream.len() - i,
        {
            upstreams.push(Upstream { address: upstream[i].clone(), alive: true });
            i += 1;
        }
        let s = ProxyState {
            active_health_check_interval,
            active_health_check_path,
            max_requests_per_minute,
            upstreams,
            client_requests: HashMap::new(),
        };
        proof {
            assert(s@.addresses =~= upstream@.map_values(|a: String| a@));
            assert(s@.alive =~= Seq::new(upstream@.len(), |i: int| true));
        }
        Ok(s)
    }

    /// Seconds between two health-check cycles.
    pub fn active_health_check_interval(&self) -> (r: usize)
        ensures
            r == self@.interval,
    {
        self.active_health_check_interval
    }

    /// Path that a health probe asks for.
    pub fn active_health_check_path(&self) -> (r: &String)
        ensures
            r@ == self@.path,
    {
        &self.active_health_check_path
    }

    /// Requests admitted per client and window; 0 means no limit.
    pub fn max_requests_per_minute(&self) -> (r: usize)
        ensures
            r == self@.limit,
    {
        self.max_requests_per_minute
    }

    /// Number of configured upstreams.
    pub fn upstream_count(&self) -> (r: usize)
        ensures
            r == self@.addresses.len(),
            r == self@.alive.len(),
    {
        self.upstreams.len()
    }

    /// Address of the upstream at `index`, if there is one.
    pub fn upstream_address(&self, index: usize) -> (r: Option<&String>)
        ensures
            index >= self@.addresses.len() <==> r is None,
            r matches Some(a) ==> a@ == self@.addresses[index as int],
    {
        if index < self.upstreams.len() {
            Some(&self.upstreams[index].address)
        } else {
            None
        }
    }

    /// Every configured address, in configuration order.
    pub fn upstream_addresses(&self) -> (r: Vec<String>)
        ensures
            r@.map_values(|a: String| a@) == self@.addresses,
    {
        let mut out: Vec<String> = Vec::new();
        let mut i: usize = 0;
        while i < self.upstreams.len()
            invariant
                i <= self.upstreams@.len(),
                out@.len() == i,
                forall|j: int| 0 <= j < i ==> out@[j]@ == self.upstreams@[j].address@,
            decreases self.upstreams@.len() - i,
        {
            out.push(self.upstreams[i].address.clone());
            i += 1;
        }
        proof {
            assert(out@.map_values(|a: String| a@) =~= self@.addresses);
        }
        out
    }

    /// Whether the upstream at `index` is marked alive; `false` where there
    /// is no such upstream.
    pub fn is_alive(&self, index: usize) -> (r: bool)
        ensures
            r == (index < self@.alive.len() && self@.alive[index as int]),
    {
        index < self.upstreams.len() && self.upstreams[index].alive
    }

    /// Number of upstreams marked alive.
    pub fn live_count(&self) -> (r: usize)
        ensures
            r == live_count(self@.alive),
    {
        let mut count: usize = 0;
        let mut i: usize = 0;
        while i < self.upstreams.len()
            invariant
                i <= self.upstreams@.len(),
                count <= i,
                count == live_count(self@.alive.take(i as int)),
            decreases self.upstreams@.len() - i,
        {
            proof {
                lemma_live_count_step(self@.alive, i as int);
            }
            if self.upstreams[i].alive {
                count += 1;
            }
            i += 1;
        }
        proof {
            assert(self@.alive.take(i as int) =~= self@.alive);
        }
        count
    }

    /// Whether any upstream is marked alive.
    pub fn has_live_upstream(&self) -> (r: bool)
        ensures
            r == exists|i: int| 0 <= i < self@.alive.len() && self@.alive[i],
            r == (live_count(self@.alive) > 0),
    {
        proof {
            lemma_live_count_bounds(self@.alive);
        }
        self.live_count() > 0
    }

    /// Position of the `k`-th live upstream, counting from 0 in configuration
    /// order; `None` where fewer than `k + 1` upstreams are alive.
    pub fn nth_live(&self, k: usize) -> (r: Option<usize>)
        ensures
            r is None <==> k >= live_count(self@.alive),
            r matches Some(i) ==> is_kth_live(self@.alive, k as nat, i as int),
    {
        let mut seen: usize = 0;
        let mut i: usize = 0;
        while i < self.upstreams.len()
            invariant
                i <= self.upstreams@.len(),
                seen <= i,
                seen <= k,
                seen == live_count(self@.alive.take(i as int)),
            decreases self.upstreams@.len() - i,
        {
            proof {
                lemma_live_count_step(self@.alive, i as int);
            }
            if self.upstreams[i].alive {
                if seen == k {
                    proof {
                        lemma_live_count_monotone(self@.alive, i as int + 1);
                    }
                    return Some(i);
                }
                seen += 1;
            }
            i += 1;
        }
        proof {
            assert(self@.alive.take(i as int) =~= self@.alive);
        }
        None
    }

    /// The addresses of the upstreams marked alive, in configuration order.
    pub fn live_addresses(&self) -> (r: Vec<String>)
        ensures
            r@.map_values(|a: String| a@) == live_addresses_of(self@.addresses, self@.alive),
    {
        let mut out: Vec<String> = Vec::new();
        let mut i: usize = 0;
        while i < self.upstreams.len()
            invariant
                i <= self.upstreams@.len(),
                out@.map_values(|a: String| a@) == live_addresses_of(
                    self@.addresses.take(i as int),
                    self@.alive.take(i as int),
                ),
            decreases self.upstreams@.len() - i,
        {
            proof {
                let ghost a = self@.addresses.take(i as int + 1);
                let ghost l = self@.alive.take(i as int + 1);
                assert(a.drop_last() =~= self@.addresses.take(i as int));
                assert(l.drop_last() =~= self@.alive.take(i as int));
                assert(a.last() == self.upstreams@[i as int].address@);
                assert(l.last() == self.upstreams@[i as int].alive);
            }
            if self.upstreams[i].alive {
                let ghost before = out@;
                out.push(self.upstreams[i].address.clone());
                proof {
                    assert(out@.map_values(|a: String| a@) =~= before.map_values(
                        |a: String| a@,
                    ).push(self.upstreams@[i as int].address@));
                }
            }
            i += 1;
        }
        proof {
            assert(self@.addresses.take(i as int) =~= self@.addresses);
            assert(self@.alive.take(i as int) =~= self@.alive);
        }
        out
    }

    /// Sets the liveness of the upstream at `index`. Nothing changes where
    /// there is no such upstream.
    pub fn set_alive(&mut self, index: usize, alive: bool)
        ensures
            final(self)@ == (ProxyModel {
                alive: if index < old(self)@.alive.len() {
                    old(self)@.alive.update(index as int, alive)
                } else {
                    old(self)@.alive
                },
                ..old(self)@
            }),
    {
        if index < self.upstreams.len() {
            self.upstreams[index].alive = alive;
            proof {
                assert(self@.alive =~= old(self)@.alive.update(index as int, alive));
                assert(self@.addresses =~= old(self)@.addresses);
            }
        }
    }

    /// Sets the liveness of every upstream configured under `address`.
    pub fn mark_alive(&mut self, address: &String, alive: bool)
        ensures
            final(self)@ == (ProxyModel {
                alive: marked(old(self)@.addresses, old(self)@.alive, address@, alive),
                ..old(self)@
            }),
    {
        let mut i: usize = 0;
        while i < self.upstreams.len()
            invariant
                i <= self.upstreams@.len(),
                self.upstreams@.len() == old(self).upstreams@.len(),
                self.active_health_check_interval == old(self).active_health_check_interval,
                self.active_health_check_path == old(self).active_health_check_path,
                self.max_requests_per_minute == old(self).max_requests_per_minute,
                self.client_requests == old(self).client_requests,
                forall|j: int|
                    0 <= j < self.upstreams@.len() ==> #[trigger] self.upstreams@[j].address
                        == old(self).upstreams@[j].address,
                forall|j: int|
                    0 <= j < i ==> #[trigger] self.upstreams@[j].alive == if old(
                        self,
                    ).upstreams@[j].address@ == address@ {
                        alive
                    } else {
                        old(self).upstreams@[j].alive
                    },
                forall|j: int|
                    i <= j < self.upstreams@.len() ==> #[trigger] self.upstreams@[j].alive == old(
                        self,
                    ).upstreams@[j].alive,
            decreases self.upstreams@.len() - i,
        {
            if self.upstreams[i].address == *address {
                self.upstreams[i].alive = alive;
            }
            i += 1;
        }
        proof {
            assert(self@.alive =~= marked(old(self)@.addresses, old(self)@.alive, address@, alive));
            assert(self@.addresses =~= old(self)@.addresses);
        }
    }

    /// The counter recorded for `client`, if it was seen before.
    pub fn rate_entry(&self, client: u128) -> (r: Option<RateEntry>)
        ensures
            r == entry_of(self@.clients, client),
    {
        broadcast use vstd::std_specs::hash::group_hash_axioms;

        match self.client_requests.get(&client) {
            Some(e) => Some(*e),
            None => None,
        }
    }

    /// Decides one request of `client` arriving at `now` (seconds on a
    /// monotonic clock) and counts it if it is allowed.
    pub fn check_and_increment(&mut self, client: u128, now: u64) -> (v: RateVerdict)
        ensures
            v == decision(old(self)@.limit, entry_of(old(self)@.clients, client), now).0,
            final(self)@ == (ProxyModel {
                clients: recorded(
                    old(self)@.clients,
                    client,
                    decision(old(self)@.limit, entry_of(old(self)@.clients, client), now).1,
                ),
                ..old(self)@
            }),
    {
        broadcast use vstd::std_specs::hash::group_hash_axioms;

        let entry = self.rate_entry(client);
        let (verdict, next) = decide(self.max_requests_per_minute, entry, now);
        match next {
            Some(e) => {
                if entry != next {
                    self.client_requests.insert(client, e);
                } else {
                    proof {
                        assert(self@.clients =~= self@.clients.insert(client, e));
                    }
                }
            },
            None => {},
        }
        verdict
    }
}

} // verus!
