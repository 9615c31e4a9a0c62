use balancebeam::proxy::state::{ConfigError, ProxyState};

fn three() -> ProxyState {
    ProxyState::new(
        vec![String::from("a:1"), String::from("b:2"), String::from("c:3")],
        10,
        String::from("/health"),
        0,
    )
    .unwrap()
}

#[test]
fn configuration_without_upstreams_is_refused() {
    let r = ProxyState::new(Vec::new(), 10, String::from("/"), 0);
    assert!(matches!(r, Err(ConfigError::NoUpstreams)));
}

#[test]
fn every_upstream_starts_alive() {
    let state = three();
    assert_eq!(state.upstream_count(), 3);
    assert_eq!(state.live_count(), 3);
    assert!(state.has_live_upstream());
    for i in 0..3 {
        assert!(state.is_alive(i));
    }
    assert!(!state.is_alive(3));
    assert_eq!(state.live_addresses(), vec!["a:1", "b:2", "c:3"]);
    assert_eq!(state.upstream_addresses(), vec!["a:1", "b:2", "c:3"]);
}

#[test]
fn configuration_is_kept() {
    let state = three();
    assert_eq!(state.active_health_check_interval(), 10);
    assert_eq!(state.active_health_check_path(), "/health");
    assert_eq!(state.max_requests_per_minute(), 0);
    assert_eq!(state.upstream_address(1), Some(&String::from("b:2")));
    assert_eq!(state.upstream_address(3), None);
}

#[test]
fn liveness_flips_any_number_of_times() {
    let mut state = three();
    state.set_alive(1, false);
    assert_eq!(state.live_addresses(), vec!["a:1", "c:3"]);
    assert_eq!(state.live_count(), 2);
    state.set_alive(1, true);
    assert_eq!(state.live_addresses(), vec!["a:1", "b:2", "c:3"]);
    state.set_alive(0, false);
    state.set_alive(2, false);
    assert_eq!(state.live_addresses(), vec!["b:2"]);
    state.set_alive(1, false);
    assert!(state.live_addresses().is_empty());
    assert!(!state.has_live_upstream());
    assert_eq!(state.live_count(), 0);
}

#[test]
fn set_alive_past_the_end_changes_nothing() {
    let mut state = three();
    state.set_alive(3, false);
    state.set_alive(usize::MAX, false);
    assert_eq!(state.live_count(), 3);
}

#[test]
fn mark_alive_goes_by_address() {
    let mut state = ProxyState::new(
        vec![String::from("a:1"), String::from("b:2"), String::from("a:1")],
        10,
        String::from("/"),
        0,
    )
    .unwrap();
    state.mark_alive(&String::from("a:1"), false);
    assert_eq!(state.live_addresses(), vec!["b:2"]);
    assert!(!state.is_alive(0));
    assert!(!state.is_alive(2));
    state.mark_alive(&String::from("nobody:9"), false);
    assert_eq!(state.live_addresses(), vec!["b:2"]);
    state.mark_alive(&String::from("a:1"), true);
    assert_eq!(state.live_count(), 3);
}

#[test]
fn nth_live_counts_only_the_living() {
    let mut state = three();
    assert_eq!(state.nth_live(0), Some(0));
    assert_eq!(state.nth_live(2), Some(2));
    assert_eq!(state.nth_live(3), None);
    state.set_alive(0, false);
    assert_eq!(state.nth_live(0), Some(1));
    assert_eq!(state.nth_live(1), Some(2));
    assert_eq!(state.nth_live(2), None);
    state.set_alive(1, false);
    state.set_alive(2, false);
    assert_eq!(state.nth_live(0), None);
}
