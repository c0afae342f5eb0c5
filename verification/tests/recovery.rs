use efm::player::Status;
use efm::recovery::{
    backoff, execution_state_flags, is_broken, normalise_url, recovery, Recovery, ES_CONTINUOUS,
    ES_SYSTEM_REQUIRED,
};

#[test]
fn keeps_trying_after_a_reconnect_that_failed() {
    let now = 5_000;
    assert_eq!(recovery(true, true, None, now), Recovery::Schedule);
}

#[test]
fn waits_until_the_deadline_then_reconnects() {
    let now = 5_000;
    let at = now + 3_000;
    assert_eq!(recovery(true, true, Some(at), now), Recovery::Wait(at));
    assert_eq!(recovery(true, true, Some(at), at), Recovery::Reconnect);
}

#[test]
fn drops_the_reconnect_when_the_stream_comes_back_by_itself() {
    let now = 5_000;
    let at = now + 3_000;
    assert_eq!(recovery(false, true, Some(at), now), Recovery::Cancel);
}

#[test]
fn leaves_a_stopped_station_alone_however_broken_it_looks() {
    let now = 5_000;
    assert_eq!(recovery(true, false, None, now), Recovery::Nothing);
    assert_eq!(recovery(false, false, None, now), Recovery::Nothing);
}

#[test]
fn widens_the_wait_then_holds_it_at_a_minute() {
    let seconds: Vec<u64> = (0..8).map(backoff).collect();
    assert_eq!(seconds, [3, 6, 12, 24, 48, 60, 60, 60]);
}

#[test]
fn never_waits_longer_than_the_cap_however_many_tries() {
    assert_eq!(backoff(u32::MAX), 60);
}

#[test]
fn gives_a_bare_address_the_scheme_it_lacks() {
    assert_eq!(
        normalise_url("www.example.com/live"),
        "https://www.example.com/live"
    );
}

#[test]
fn leaves_an_address_that_has_a_scheme_alone() {
    assert_eq!(
        normalise_url("http://example.com/live"),
        "http://example.com/live"
    );
    assert_eq!(normalise_url("  "), "");
}

#[test]
fn normalising_twice_is_normalising_once() {
    for text in ["  www.example.com/live ", "http://a.example", "", "radio"] {
        let once = normalise_url(text);
        assert_eq!(normalise_url(&once), once);
    }
    assert_eq!(normalise_url("  radio  "), "https://radio");
}

#[test]
fn a_reconnect_that_came_due_long_ago_still_fires() {
    assert_eq!(recovery(true, false, Some(10), 1_000_000), Recovery::Reconnect);
}

#[test]
fn counts_a_failed_retry_as_broken() {
    assert!(is_broken(false, &Status::Error("gone".to_owned())));
    assert!(is_broken(true, &Status::Playing));
    assert!(!is_broken(false, &Status::Playing));
    assert!(!is_broken(false, &Status::Idle));
}

#[test]
fn holds_only_the_system_awake() {
    assert_eq!(execution_state_flags(true), 0x8000_0001);
    assert_eq!(execution_state_flags(false), 0x8000_0000);
    assert_eq!(ES_CONTINUOUS | ES_SYSTEM_REQUIRED, 0x8000_0001);
}
