use balancebeam::proxy::rate::{decide, RateEntry, RateVerdict};
use balancebeam::proxy::state::ProxyState;

const CLIENT: u128 = 0x0102_0304;
const OTHER: u128 = 0x0a00_0001;

fn state_with_limit(limit: usize) -> ProxyState {
    ProxyState::new(vec![String::from("127.0.0.1:8080")], 10, String::from("/"), limit).unwrap()
}

#[test]
fn first_three_requests_in_a_window_are_allowed() {
    let mut state = state_with_limit(3);
    assert_eq!(state.check_and_increment(CLIENT, 100), RateVerdict::Allow);
    assert_eq!(state.check_and_increment(CLIENT, 120), RateVerdict::Allow);
    assert_eq!(state.check_and_increment(CLIENT, 159), RateVerdict::Allow);
    assert_eq!(state.rate_entry(CLIENT), Some(RateEntry { window_start: 100, count: 3 }));
}

#[test]
fn fourth_request_in_the_window_is_denied() {
    let mut state = state_with_limit(3);
    for at in [100u64, 101, 102] {
        assert_eq!(state.check_and_increment(CLIENT, at), RateVerdict::Allow);
    }
    assert_eq!(state.check_and_increment(CLIENT, 159), RateVerdict::Deny);
    assert_eq!(state.check_and_increment(CLIENT, 159), RateVerdict::Deny);
    assert_eq!(state.rate_entry(CLIENT), Some(RateEntry { window_start: 100, count: 3 }));
}

#[test]
fn request_a_window_later_restarts_the_count_at_one() {
    let mut state = state_with_limit(3);
    for at in [100u64, 101, 102] {
        assert_eq!(state.check_and_increment(CLIENT, at), RateVerdict::Allow);
    }
    assert_eq!(state.check_and_increment(CLIENT, 130), RateVerdict::Deny);
    assert_eq!(state.check_and_increment(CLIENT, 160), RateVerdict::Allow);
    assert_eq!(state.rate_entry(CLIENT), Some(RateEntry { window_start: 160, count: 1 }));
    assert_eq!(state.check_and_increment(CLIENT, 161), RateVerdict::Allow);
    assert_eq!(state.check_and_increment(CLIENT, 162), RateVerdict::Allow);
    assert_eq!(state.check_and_increment(CLIENT, 163), RateVerdict::Deny);
}

#[test]
fn window_one_second_short_does_not_restart() {
    let mut state = state_with_limit(1);
    assert_eq!(state.check_and_increment(CLIENT, 0), RateVerdict::Allow);
    assert_eq!(state.check_and_increment(CLIENT, 59), RateVerdict::Deny);
    assert_eq!(state.check_and_increment(CLIENT, 60), RateVerdict::Allow);
}

#[test]
fn clients_are_counted_apart() {
    let mut state = state_with_limit(1);
    assert_eq!(state.check_and_increment(CLIENT, 5), RateVerdict::Allow);
    assert_eq!(state.check_and_increment(OTHER, 5), RateVerdict::Allow);
    assert_eq!(state.check_and_increment(CLIENT, 6), RateVerdict::Deny);
    assert_eq!(state.check_and_increment(OTHER, 6), RateVerdict::Deny);
    assert_eq!(state.rate_entry(OTHER), Some(RateEntry { window_start: 5, count: 1 }));
}

#[test]
fn limit_zero_never_denies() {
    let mut state = state_with_limit(0);
    for at in 0..1000u64 {
        assert_eq!(state.check_and_increment(CLIENT, at / 100), RateVerdict::Allow);
        assert_eq!(state.check_and_increment(OTHER, at / 100), RateVerdict::Allow);
    }
    assert_eq!(state.rate_entry(CLIENT), None);
    assert_eq!(state.rate_entry(OTHER), None);
}

#[test]
fn clock_that_reads_earlier_counts_as_no_time_passed() {
    let mut state = state_with_limit(2);
    assert_eq!(state.check_and_increment(CLIENT, 500), RateVerdict::Allow);
    assert_eq!(state.check_and_increment(CLIENT, 100), RateVerdict::Allow);
    assert_eq!(state.check_and_increment(CLIENT, 100), RateVerdict::Deny);
    assert_eq!(state.rate_entry(CLIENT), Some(RateEntry { window_start: 500, count: 2 }));
}

#[test]
fn decide_gives_verdict_and_next_entry() {
    assert_eq!(
        decide(3, None, 7),
        (RateVerdict::Allow, Some(RateEntry { window_start: 7, count: 1 }))
    );
    let full = RateEntry { window_start: 7, count: 3 };
    assert_eq!(decide(3, Some(full), 66), (RateVerdict::Deny, Some(full)));
    assert_eq!(
        decide(3, Some(full), 67),
        (RateVerdict::Allow, Some(RateEntry { window_start: 67, count: 1 }))
    );
    assert_eq!(decide(0, Some(full), 8), (RateVerdict::Allow, Some(full)));
    assert_eq!(decide(0, None, 8), (RateVerdict::Allow, None));
    let last = RateEntry { window_start: 0, count: usize::MAX - 1 };
    assert_eq!(
        decide(usize::MAX, Some(last), 1),
        (RateVerdict::Allow, Some(RateEntry { window_start: 0, count: usize::MAX }))
    );
}
