//! Active health checking: after each interval every configured upstream is
//! probed in turn, and each verdict is written to the shared state as soon
//! as its probe is over.

use crate::proxy::connection::STATUS_OK;
use crate::proxy::state::{ProxyModel, ProxyState};
use vstd::prelude::*;

verus! {

/// What came of one probe.
#[derive(Clone, Copy, Debug, PartialEq, Eq, Structural)]
pub enum ProbeOutcome {
    /// No connection could be opened.
    ConnectFailed,
    /// The probe request could not be written.
    WriteFailed,
    /// No response could be read.
    ReadFailed,
    /// The upstream answered with this status.
    Responded(u16),
}

/// What the caller reports back to the checker.
#[derive(Clone, Copy, Debug, PartialEq, Eq, Structural)]
pub enum HealthEvent {
    /// The interval has passed.
    Woke,
    /// The probe that was asked for is over.
    Probed(ProbeOutcome),
}

/// What the caller is to do next.
#[derive(Clone, Copy, Debug, PartialEq, Eq, Structural)]
pub enum HealthAction {
    /// Sleep for this many seconds.
    Sleep(usize),
    /// Open a fresh connection to the upstream at this index, send a GET for
    /// the probe path and read one response.
    Probe(usize),
}

/// The mathematical content of a [`HealthChecker`].
pub struct CheckerModel {
    /// Seconds to sleep between two cycles.
    pub interval: nat,
    /// Path that a probe asks for.
    pub path: Seq<char>,
    /// The upstream addresses, as they were configured when the checker began.
    pub addresses: Seq<Seq<char>>,
    /// Position of the upstream being probed; `None` while sleeping.
    pub position: Option<nat>,
}

/// An upstream is alive exactly if it answered its probe with status 200.
pub open spec fn verdict(outcome: ProbeOutcome) -> bool {
    outcome == ProbeOutcome::Responded(STATUS_OK)
}

/// The checker's rule: its next position, the liveness table afterwards, and
/// what the caller is to do. A report that does not fit the position changes
/// nothing and asks again for what was asked last.
pub open spec fn health_step(checker: CheckerModel, alive: Seq<bool>, event: HealthEvent) -> (
    Option<nat>,
    Seq<bool>,
    HealthAction,
) {
    match (checker.position, event) {
        (None, HealthEvent::Woke) => if checker.addresses.len() == 0 {
            (None, alive, HealthAction::Sleep(checker.interval as usize))
        } else {
            (Some(0nat), alive, HealthAction::Probe(0))
        },
        (None, HealthEvent::Probed(_)) => (
            None,
            alive,
            HealthAction::Sleep(checker.interval as usize),
        ),
        (Some(at), HealthEvent::Woke) => (Some(at), alive, HealthAction::Probe(at as usize)),
        (Some(at), HealthEvent::Probed(outcome)) => {
            let written = if at < alive.len() {
                alive.update(at as int, verdict(outcome))
            } else {
                alive
            };
            if at + 1 < checker.addresses.len() {
                (Some(at + 1), written, HealthAction::Probe((at + 1) as usize))
            } else {
                (None, written, HealthAction::Sleep(checker.interval as usize))
            }
        },
    }
}

/// The liveness table after the first `outcomes.len()` upstreams were probed
/// with these outcomes: their entries hold the verdicts, the rest is as before.
pub open spec fn after_probes(alive: Seq<bool>, outcomes: Seq<ProbeOutcome>) -> Seq<bool> {
    Seq::new(
        alive.len(),
        |i: int|
            if i < outcomes.len() {
                verdict(outcomes[i])
            } else {
                alive[i]
            },
    )
}

/// The checker's position and the liveness table after a sweep that began
/// with waking up and has seen `outcomes` reported so far.
pub open spec fn sweep(checker: CheckerModel, alive: Seq<bool>, outcomes: Seq<ProbeOutcome>) -> (
    Option<nat>,
    Seq<bool>,
)
    decreases outcomes.len(),
{
    if outcomes.len() == 0 {
        let woke = health_step(checker, alive, HealthEvent::Woke);
        (woke.0, woke.1)
    } else {
        let before = sweep(checker, alive, outcomes.drop_last());
        let next = health_step(
            CheckerModel { position: before.0, ..checker },
            before.1,
            HealthEvent::Probed(outcomes.last()),
        );
        (next.0, next.1)
    }
}

/// Liveness of an upstream, from what came of its probe: alive exactly if
/// connecting, writing and reading all succeeded and the status is 200.
pub fn probe_verdict(outcome: ProbeOutcome) -> (r: bool)
    ensures
        r == verdict(outcome),
{
    match outcome {
        ProbeOutcome::Responded(status) => status == STATUS_OK,
        _ => false,
    }
}

/// The health checker's own state: the configuration it began with and its
/// position in the current sweep.
pub struct HealthChecker {
    interval: usize,
    path: String,
    addresses: Vec<String>,
    cursor: usize,
    probing: bool,
}

impl View for HealthChecker {
    type V = CheckerModel;

    closed spec fn view(&self) -> CheckerModel {
        CheckerModel {
            interval: self.interval as nat,
            path: self.path@,
            addresses: self.addresses@.map_values(|a: String| a@),
            position: if self.probing {
                Some(self.cursor as nat)
            } else {
                None
            },
        }
    }
}

impl HealthChecker {
    /// A checker for the upstreams of `state`, together with the first thing
    /// to do: sleep for one interval.
    pub fn start(state: &ProxyState) -> (r: (HealthChecker, HealthAction))
        ensures
            r.0@ == (CheckerModel {
                interval: state@.interval,
                path: state@.path,
                addresses: state@.addresses,
                position: None,
            }),
            r.1 == HealthAction::Sleep(state@.interval as usize),
    {
        let interval = state.active_health_check_interval();
        let checker = HealthChecker {
            interval,
            path: state.active_health_check_path().clone(),
            addresses: state.upstream_addresses(),
            cursor: 0,
            probing: false,
        };
        (checker, HealthAction::Sleep(interval))
    }

    /// Seconds to sleep between two sweeps.
    pub fn interval(&self) -> (r: usize)
        ensures
            r == self@.interval,
    {
        self.interval
    }

    /// Path that a probe asks for.
    pub fn path(&self) -> (r: &String)
        ensures
            r@ == self@.path,
    {
        &self.path
    }

    /// Address of the upstream at `index`, which is also the probe's `Host`.
    pub fn address(&self, index: usize) -> (r: Option<&String>)
        ensures
            index >= self@.addresses.len() <==> r is None,
            r matches Some(a) ==> a@ == self@.addresses[index as int],
    {
        if index < self.addresses.len() {
            Some(&self.addresses[index])
        } else {
            None
        }
    }

    /// Takes in what came of the last action, writes a probe's verdict to
    /// `state`, and says what to do next.
    pub fn handle(&mut self, state: &mut ProxyState, event: HealthEvent) -> (action: HealthAction)
        ensures
            final(self)@ == (CheckerModel {
                position: health_step(old(self)@, old(state)@.alive, event).0,
                ..old(self)@
            }),
            final(state)@ == (ProxyModel {
                alive: health_step(old(self)@, old(state)@.alive, event).1,
                ..old(state)@
            }),
            action == health_step(old(self)@, old(state)@.alive, event).2,
    {
        let count = self.addresses.len();
        match event {
            HealthEvent::Woke => {
                if self.probing {
                    HealthAction::Probe(self.cursor)
                } else if count == 0 {
                    HealthAction::Sleep(self.interval)
                } else {
                    self.cursor = 0;
                    self.probing = true;
                    HealthAction::Probe(0)
                }
            },
            HealthEvent::Probed(outcome) => {
                if !self.probing {
                    HealthAction::Sleep(self.interval)
                } else {
                    state.set_alive(self.cursor, probe_verdict(outcome));
                    if count > 0 && self.cursor < count - 1 {
                        self.cursor += 1;
                        HealthAction::Probe(self.cursor)
                    } else {
                        self.cursor = 0;
                        self.probing = false;
                        HealthAction::Sleep(self.interval)
                    }
                }
            },
        }
    }
}

/// In the middle of a sweep the upstreams probed so far hold their verdicts,
/// the others are untouched, and the checker stands at the next upstream.
pub proof fn lemma_sweep_in_progress(
    checker: CheckerModel,
    alive: Seq<bool>,
    outcomes: Seq<ProbeOutcome>,
)
    requires
        checker.position is None,
        checker.addresses.len() == alive.len(),
        outcomes.len() < alive.len(),
    ensures
        sweep(checker, alive, outcomes) == (
            Some(outcomes.len()),
            after_probes(alive, outcomes),
        ),
    decreases outcomes.len(),
{
    if outcomes.len() == 0 {
        assert(after_probes(alive, outcomes) =~= alive);
    } else {
        let earlier = outcomes.drop_last();
        lemma_sweep_in_progress(checker, alive, earlier);
        assert(after_probes(alive, earlier).update(
            earlier.len() as int,
            verdict(outcomes.last()),
        ) =~= after_probes(alive, outcomes));
    }
}

/// After one full sweep every upstream is marked alive exactly if its own
/// probe answered 200, whatever became of the probes before it, and the
/// checker sleeps again.
pub proof fn lemma_sweep_sets_every_verdict(
    checker: CheckerModel,
    alive: Seq<bool>,
    outcomes: Seq<ProbeOutcome>,
)
    requires
        checker.position is None,
        checker.addresses.len() == alive.len(),
        outcomes.len() == alive.len(),
        alive.len() > 0,
    ensures
        sweep(checker, alive, outcomes) == (
            None::<nat>,
            Seq::new(alive.len(), |i: int| verdict(outcomes[i])),
        ),
{
    let earlier = outcomes.drop_last();
    lemma_sweep_in_progress(checker, alive, earlier);
    assert(after_probes(alive, earlier).update(earlier.len() as int, verdict(outcomes.last()))
        =~= Seq::new(alive.len(), |i: int| verdict(outcomes[i])));
}

} // verus!
