use balancebeam::proxy::config::{CmdOptions, EXIT_STARTUP_FAILURE};
use balancebeam::proxy::state::ConfigError;

#[test]
fn defaults_of_an_invocation_without_arguments() {
    let options = CmdOptions::default();
    assert_eq!(options.bind, "0.0.0.0:1100");
    assert!(options.upstream.is_empty());
    assert_eq!(options.active_health_check_interval, 10);
    assert_eq!(options.active_health_check_path, "/");
    assert_eq!(options.max_requests_per_minute, 0);
}

#[test]
fn options_without_upstream_cannot_start() {
    assert!(matches!(CmdOptions::default().into_state(), Err(ConfigError::NoUpstreams)));
    assert_eq!(EXIT_STARTUP_FAILURE, 1);
}

#[test]
fn options_become_the_state() {
    let mut options = CmdOptions::default();
    options.upstream = vec![String::from("127.0.0.1:8080"), String::from("127.0.0.1:8081")];
    options.max_requests_per_minute = 5;
    options.active_health_check_path = String::from("/ok");
    options.active_health_check_interval = 3;
    let state = options.into_state().unwrap();
    assert_eq!(state.upstream_count(), 2);
    assert_eq!(state.live_count(), 2);
    assert_eq!(state.max_requests_per_minute(), 5);
    assert_eq!(state.active_health_check_path(), "/ok");
    assert_eq!(state.active_health_check_interval(), 3);
    assert_eq!(state.rate_entry(1), None);
}
