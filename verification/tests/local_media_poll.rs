use connected::ffi::{DiscoveredDevice, MediaState};
use connected::media_poll::{best_candidate, broadcast_targets, MediaPoller, MAX_QUIET_POLLS};

fn state(title: Option<&str>, playing: bool) -> MediaState {
    MediaState { title: title.map(|t| t.to_string()), artist: None, album: None, playing }
}

fn seen_device(id: &str, ip: &str) -> DiscoveredDevice {
    DiscoveredDevice {
        id: id.to_string(),
        name: id.to_string(),
        ip: ip.to_string(),
        port: 5000,
        device_type: "android".to_string(),
    }
}

#[test]
fn first_playing_player_wins() {
    let c = vec![state(Some("a"), false), state(Some("b"), true), state(Some("c"), true)];
    assert_eq!(best_candidate(&c).unwrap().title.as_deref(), Some("b"));
    let c = vec![state(Some("a"), false), state(Some("b"), false)];
    assert_eq!(best_candidate(&c).unwrap().title.as_deref(), Some("a"));
    assert!(best_candidate(&Vec::new()).is_none());
}

#[test]
fn unchanged_states_are_not_passed_on() {
    let mut p = MediaPoller::new();
    assert!(p.observe(Some(state(None, false))).is_none());
    assert!(p.observe(Some(state(Some("Song"), false))).is_some());
    assert!(p.observe(Some(state(Some("Song"), false))).is_none());
    assert!(p.observe(Some(state(Some("Song"), true))).is_some());
    assert_eq!(p.last_title, "Song");
    assert!(p.last_playing);
}

#[test]
fn empty_polls_slow_the_poller_down() {
    let mut p = MediaPoller::new();
    for _ in 0..10 {
        assert!(p.observe(None).is_none());
    }
    assert!(!p.slow_down());
    p.observe(None);
    assert!(p.slow_down());
    for _ in 0..20 {
        p.observe(None);
    }
    assert_eq!(p.quiet_polls, MAX_QUIET_POLLS);
    assert!(p.slow_down());
    p.observe(Some(state(Some("x"), true)));
    assert_eq!(p.quiet_polls, 0);
    assert!(!p.slow_down());
}

#[test]
fn updates_go_to_discovered_trusted_peers() {
    let peers = vec![Some("b".to_string()), None, Some("zz".to_string()), Some("a".to_string())];
    let found = vec![seen_device("a", "10.0.0.1"), seen_device("b", "10.0.0.2"), seen_device("a", "10.0.0.9")];
    let t = broadcast_targets(&peers, &found);
    let ips: Vec<&str> = t.iter().map(|d| d.ip.as_str()).collect();
    assert_eq!(ips, vec!["10.0.0.2", "10.0.0.1"]);
}
