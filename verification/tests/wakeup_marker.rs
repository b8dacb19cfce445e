use connected::wakeup::{
    current_wakeup_marker_value, initialize_wakeup_state, parse_wakeup_marker, request_wakeup,
    take_wakeup_request, wakeup_marker_contents, WakeupState,
};

#[test]
fn marker_round_trips_through_its_file_contents() {
    for m in [0u64, 1, 42, 1_700_000_000_000_000, u64::MAX] {
        assert_eq!(parse_wakeup_marker(&wakeup_marker_contents(m)), Some(m));
    }
    assert_eq!(parse_wakeup_marker("  123\n"), Some(123));
    assert_eq!(parse_wakeup_marker(""), None);
    assert_eq!(parse_wakeup_marker("12a"), None);
    assert_eq!(parse_wakeup_marker("-1"), None);
    assert_eq!(parse_wakeup_marker("18446744073709551616"), None);
}

#[test]
fn marker_value_saturates() {
    assert_eq!(current_wakeup_marker_value(5), 5);
    assert_eq!(current_wakeup_marker_value(u64::MAX as u128 + 10), u64::MAX);
}

#[test]
fn request_then_take_wakes_once() {
    let mut s = WakeupState::new();
    request_wakeup(&mut s, 10);
    assert!(take_wakeup_request(&mut s, Some(10)));
    assert!(!take_wakeup_request(&mut s, Some(10)));
    assert_eq!(s, WakeupState { requested: false, last_marker: 10 });
}

#[test]
fn newer_marker_from_another_instance_wakes() {
    let mut s = WakeupState::new();
    initialize_wakeup_state(&mut s, Some(100));
    assert_eq!(s.last_marker, 100);
    assert!(!take_wakeup_request(&mut s, Some(100)));
    assert!(!take_wakeup_request(&mut s, Some(50)));
    assert!(take_wakeup_request(&mut s, Some(101)));
    assert_eq!(s.last_marker, 101);
    assert!(!take_wakeup_request(&mut s, None));
}
