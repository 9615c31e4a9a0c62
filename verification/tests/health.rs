use balancebeam::proxy::health::{
    probe_verdict, HealthAction, HealthChecker, HealthEvent, ProbeOutcome,
};
use balancebeam::proxy::state::ProxyState;

fn upstreams(n: usize) -> ProxyState {
    let addresses: Vec<String> = (0..n).map(|i| format!("10.0.0.{}:80", i)).collect();
    ProxyState::new(addresses, 7, String::from("/ping"), 0).unwrap()
}

#[test]
fn only_a_200_means_alive() {
    assert!(probe_verdict(ProbeOutcome::Responded(200)));
    assert!(!probe_verdict(ProbeOutcome::Responded(201)));
    assert!(!probe_verdict(ProbeOutcome::Responded(404)));
    assert!(!probe_verdict(ProbeOutcome::Responded(500)));
    assert!(!probe_verdict(ProbeOutcome::Responded(0)));
    assert!(!probe_verdict(ProbeOutcome::ConnectFailed));
    assert!(!probe_verdict(ProbeOutcome::WriteFailed));
    assert!(!probe_verdict(ProbeOutcome::ReadFailed));
}

#[test]
fn checker_takes_its_configuration_from_the_state() {
    let state = upstreams(2);
    let (checker, first) = HealthChecker::start(&state);
    assert_eq!(first, HealthAction::Sleep(7));
    assert_eq!(checker.interval(), 7);
    assert_eq!(checker.path(), "/ping");
    assert_eq!(checker.address(0), Some(&String::from("10.0.0.0:80")));
    assert_eq!(checker.address(1), Some(&String::from("10.0.0.1:80")));
    assert_eq!(checker.address(2), None);
}

#[test]
fn sweep_visits_every_upstream_in_order() {
    let mut state = upstreams(3);
    let (mut checker, _) = HealthChecker::start(&state);
    assert_eq!(checker.handle(&mut state, HealthEvent::Woke), HealthAction::Probe(0));
    let ok = HealthEvent::Probed(ProbeOutcome::Responded(200));
    assert_eq!(checker.handle(&mut state, ok), HealthAction::Probe(1));
    assert_eq!(checker.handle(&mut state, ok), HealthAction::Probe(2));
    assert_eq!(checker.handle(&mut state, ok), HealthAction::Sleep(7));
    assert_eq!(checker.handle(&mut state, HealthEvent::Woke), HealthAction::Probe(0));
}

#[test]
fn failing_probe_does_not_stop_the_sweep() {
    let mut state = upstreams(3);
    let (mut checker, _) = HealthChecker::start(&state);
    checker.handle(&mut state, HealthEvent::Woke);
    assert_eq!(
        checker.handle(&mut state, HealthEvent::Probed(ProbeOutcome::ConnectFailed)),
        HealthAction::Probe(1)
    );
    assert_eq!(
        checker.handle(&mut state, HealthEvent::Probed(ProbeOutcome::Responded(503))),
        HealthAction::Probe(2)
    );
    assert_eq!(
        checker.handle(&mut state, HealthEvent::Probed(ProbeOutcome::Responded(200))),
        HealthAction::Sleep(7)
    );
    assert!(!state.is_alive(0));
    assert!(!state.is_alive(1));
    assert!(state.is_alive(2));
}

#[test]
fn each_verdict_is_written_at_once() {
    let mut state = upstreams(2);
    let (mut checker, _) = HealthChecker::start(&state);
    checker.handle(&mut state, HealthEvent::Woke);
    assert!(state.is_alive(0));
    checker.handle(&mut state, HealthEvent::Probed(ProbeOutcome::ReadFailed));
    assert!(!state.is_alive(0));
    assert!(state.is_alive(1));
    checker.handle(&mut state, HealthEvent::Probed(ProbeOutcome::WriteFailed));
    assert!(!state.is_alive(1));
}

#[test]
fn dead_upstream_is_revived_by_a_200() {
    let mut state = upstreams(1);
    state.set_alive(0, false);
    let (mut checker, _) = HealthChecker::start(&state);
    assert_eq!(checker.handle(&mut state, HealthEvent::Woke), HealthAction::Probe(0));
    assert_eq!(
        checker.handle(&mut state, HealthEvent::Probed(ProbeOutcome::Responded(200))),
        HealthAction::Sleep(7)
    );
    assert!(state.is_alive(0));
}

#[test]
fn report_out_of_turn_changes_nothing() {
    let mut state = upstreams(2);
    let (mut checker, _) = HealthChecker::start(&state);
    assert_eq!(
        checker.handle(&mut state, HealthEvent::Probed(ProbeOutcome::ConnectFailed)),
        HealthAction::Sleep(7)
    );
    assert_eq!(state.live_count(), 2);
    checker.handle(&mut state, HealthEvent::Woke);
    checker.handle(&mut state, HealthEvent::Probed(ProbeOutcome::Responded(200)));
    assert_eq!(checker.handle(&mut state, HealthEvent::Woke), HealthAction::Probe(1));
    assert_eq!(state.live_count(), 2);
}
