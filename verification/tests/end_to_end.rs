use balancebeam::proxy::connection::{Action, Connection, Event};
use balancebeam::proxy::forwarded::extend_header_value;
use balancebeam::proxy::health::{HealthAction, HealthChecker, HealthEvent, ProbeOutcome};
use balancebeam::proxy::rate::{RateEntry, RateVerdict};
use balancebeam::proxy::state::ProxyState;

const CLIENT: u128 = 0x7f00_0001;

#[test]
fn one_upstream_probed_alive_serves_a_request() {
    let mut state =
        ProxyState::new(vec![String::from("127.0.0.1:9000")], 10, String::from("/"), 0).unwrap();
    let (mut checker, first) = HealthChecker::start(&state);
    assert_eq!(first, HealthAction::Sleep(10));
    assert_eq!(checker.handle(&mut state, HealthEvent::Woke), HealthAction::Probe(0));
    assert_eq!(checker.path(), "/");
    assert_eq!(
        checker.handle(&mut state, HealthEvent::Probed(ProbeOutcome::Responded(200))),
        HealthAction::Sleep(10)
    );
    assert!(state.is_alive(0));

    let (mut conn, action) = Connection::accept();
    assert_eq!(action, Action::Connect);
    let (index, upstream) = state.connect_to_upstream(|i| Some(format!("stream-{}", i))).unwrap();
    assert_eq!((index, upstream.as_str()), (0, "stream-0"));
    assert_eq!(conn.handle(Event::UpstreamConnected), Action::ReadRequest);
    assert_eq!(conn.handle(Event::RequestRead), Action::CheckRate);
    let verdict = state.check_and_increment(CLIENT, 0);
    assert_eq!(verdict, RateVerdict::Allow);
    assert_eq!(conn.handle(Event::RateChecked(verdict)), Action::ForwardRequest);
    assert_eq!(extend_header_value(None, b"127.0.0.1"), b"127.0.0.1".to_vec());
    assert_eq!(conn.handle(Event::RequestForwarded), Action::ReadResponse);
    assert_eq!(conn.handle(Event::ResponseRead), Action::RelayResponse);
    assert_eq!(conn.handle(Event::ResponseRelayed), Action::ReadRequest);
}

#[test]
fn upstream_found_dead_by_a_sweep_gets_no_new_traffic() {
    let mut state = ProxyState::new(
        vec![String::from("127.0.0.1:9000"), String::from("127.0.0.1:9001")],
        10,
        String::from("/"),
        0,
    )
    .unwrap();
    let (mut checker, _) = HealthChecker::start(&state);
    checker.handle(&mut state, HealthEvent::Woke);
    checker.handle(&mut state, HealthEvent::Probed(ProbeOutcome::Responded(200)));
    checker.handle(&mut state, HealthEvent::Probed(ProbeOutcome::Responded(200)));
    assert_eq!(state.live_count(), 2);

    checker.handle(&mut state, HealthEvent::Woke);
    checker.handle(&mut state, HealthEvent::Probed(ProbeOutcome::ConnectFailed));
    checker.handle(&mut state, HealthEvent::Probed(ProbeOutcome::Responded(200)));
    assert_eq!(state.live_addresses(), vec!["127.0.0.1:9001"]);

    for _ in 0..100 {
        let (index, _) = state.connect_to_upstream(|i| Some(i)).unwrap();
        assert_eq!(index, 1);
        assert_eq!(state.pick_upstream(), Some(1));
    }
}

#[test]
fn fourth_request_of_a_limited_client_gets_429() {
    let mut state =
        ProxyState::new(vec![String::from("127.0.0.1:9000")], 10, String::from("/"), 3).unwrap();
    let (mut conn, _) = Connection::accept();
    conn.handle(Event::UpstreamConnected);
    for at in 0..3u64 {
        assert_eq!(conn.handle(Event::RequestRead), Action::CheckRate);
        assert_eq!(conn.check_rate(&mut state, 0x0102_0304, at), Action::ForwardRequest);
        conn.handle(Event::RequestForwarded);
        conn.handle(Event::ResponseRead);
        assert_eq!(conn.handle(Event::ResponseRelayed), Action::ReadRequest);
    }
    assert_eq!(conn.handle(Event::RequestRead), Action::CheckRate);
    assert_eq!(conn.check_rate(&mut state, 0x0102_0304, 30), Action::ReplyAndRead(429));
    assert_eq!(conn.handle(Event::RequestRead), Action::CheckRate);
    assert_eq!(conn.check_rate(&mut state, 0x0102_0304, 60), Action::ForwardRequest);
    assert_eq!(
        state.rate_entry(0x0102_0304),
        Some(RateEntry { window_start: 60, count: 1 })
    );
}

#[test]
fn rate_check_out_of_turn_counts_nothing() {
    let mut state =
        ProxyState::new(vec![String::from("127.0.0.1:9000")], 10, String::from("/"), 3).unwrap();
    let (mut conn, _) = Connection::accept();
    conn.handle(Event::UpstreamConnected);
    assert_eq!(conn.check_rate(&mut state, 7, 0), Action::Close);
    assert!(conn.is_closed());
    assert_eq!(state.rate_entry(7), None);
}
