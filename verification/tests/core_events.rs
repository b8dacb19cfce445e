use connected::events::{
    is_cancelled_error, is_connection_error, on_device_found, on_device_lost, on_device_unpaired,
    on_pairing_rejected, on_pairing_request, on_remote_clipboard, should_read_clipboard,
    should_retry, take_local_clipboard, PairingDecision, RetryQueue,
};
use connected::ffi::DiscoveredDevice;
use connected::settings::{set_clipboard_sync_enabled, AppSettings};
use connected::state::{set_pairing_mode_state, AppState};

fn device(id: &str, ip: &str) -> DiscoveredDevice {
    DiscoveredDevice {
        id: id.to_string(),
        name: format!("Dev {}", id),
        ip: ip.to_string(),
        port: 4000,
        device_type: "linux".to_string(),
    }
}

#[test]
fn trusted_devices_are_remembered_and_kept_offline() {
    let mut st = AppState::new(AppSettings::default(), 0);
    st.pending_pairings.insert("t".to_string(), ());
    on_device_found(&mut st, device("t", "10.0.0.2"), true);
    on_device_found(&mut st, device("u", "10.0.0.3"), false);
    on_device_found(&mut st, device("o", "0.0.0.0"), true);
    assert!(!st.pending_pairings.contains_key("t"));
    assert!(st.settings.saved_devices.contains_key("t"));
    assert!(!st.settings.saved_devices.contains_key("u"));
    assert!(!st.settings.saved_devices.contains_key("o"));
    assert!(st.devices.get("t").unwrap().is_trusted);
    on_device_lost(&mut st, "t");
    on_device_lost(&mut st, "u");
    on_device_lost(&mut st, "missing");
    assert_eq!(st.devices.get("t").unwrap().ip, "0.0.0.0");
    assert!(!st.devices.contains_key("u"));
}

#[test]
fn unpaired_device_loses_trust() {
    let mut st = AppState::new(AppSettings::default(), 0);
    on_device_found(&mut st, device("t", "10.0.0.2"), true);
    on_device_found(&mut st, device("s", "10.0.0.4"), true);
    on_device_unpaired(&mut st, "t", "Dev t", true, 5);
    assert!(!st.devices.get("t").unwrap().is_trusted);
    assert!(!st.settings.saved_devices.contains_key("t"));
    on_device_unpaired(&mut st, "s", "Dev s", false, 6);
    assert!(!st.devices.contains_key("s"));
    assert_eq!(st.notifications[1].message, "You were unpaired from Dev s");
}

#[test]
fn retry_queue_hands_files_back() {
    let mut q = RetryQueue::new();
    q.queue("/a".to_string());
    q.queue("/b".to_string());
    assert_eq!(q.take_for("10.0.0.9"), vec!["/a".to_string(), "/b".to_string()]);
    assert!(q.take_for("10.0.0.9").is_empty());
    q.queue("/c".to_string());
    assert_eq!(q.take_for("0.0.0.0"), vec!["/c".to_string()]);
}

#[test]
fn transfer_errors_are_classified() {
    assert!(is_cancelled_error("Transfer CANCELLED by peer"));
    assert!(is_cancelled_error("canceled"));
    assert!(!is_cancelled_error("cancel"));
    assert!(is_connection_error("Connection reset by peer"));
    assert!(is_connection_error("unexpected EOF"));
    assert!(is_connection_error("Timeout"));
    assert!(!is_connection_error("disk full"));
    assert!(should_retry(true, "connection refused"));
    assert!(!should_retry(false, "connection refused"));
    assert!(!should_retry(true, "connection cancelled"));
    assert!(!should_retry(true, "disk full"));
}

#[test]
fn clipboard_from_a_device_is_not_echoed() {
    let mut st = AppState::new(AppSettings::default(), 0);
    set_clipboard_sync_enabled(&mut st.settings, true);
    assert!(should_read_clipboard(&st, 1_000));
    assert!(!should_read_clipboard(&st, 999));
    on_remote_clipboard(&mut st, "remote".to_string(), "Phone", 10_000);
    assert_eq!(st.notifications[0].message, "Received from Phone");
    assert!(!should_read_clipboard(&st, 10_999));
    assert!(should_read_clipboard(&st, 11_000));
    assert!(!take_local_clipboard(&mut st, "remote".to_string()));
    assert!(!take_local_clipboard(&mut st, String::new()));
    assert!(take_local_clipboard(&mut st, "local".to_string()));
    assert_eq!(st.last_clipboard, "local");
    assert!(!take_local_clipboard(&mut st, "local".to_string()));
    set_clipboard_sync_enabled(&mut st.settings, false);
    assert!(!should_read_clipboard(&st, 50_000));
}

#[test]
fn pairing_requests_are_decided() {
    let mut st = AppState::new(AppSettings::default(), 0);
    let req = |st: &mut AppState, trusted: bool, fp: &str| {
        on_pairing_request(st, trusted, "Phone".to_string(), fp.to_string(), "d1".to_string())
    };
    assert_eq!(req(&mut st, false, "fp1"), PairingDecision::AutoReject);
    assert_eq!(req(&mut st, true, "fp1"), PairingDecision::AutoAccept);
    set_pairing_mode_state(&mut st, true);
    assert_eq!(req(&mut st, false, "fp1"), PairingDecision::Queued);
    assert_eq!(req(&mut st, false, "fp1"), PairingDecision::Duplicate);
    assert_eq!(req(&mut st, false, "fp2"), PairingDecision::Queued);
    assert_eq!(st.pairing_requests.len(), 2);
    st.pending_pairings.insert("d1".to_string(), ());
    on_pairing_rejected(&mut st, "Phone", "d1", "rejected", 7);
    assert_eq!(st.pairing_requests.len(), 0);
    assert!(!st.pending_pairings.contains_key("d1"));
    assert_eq!(st.notifications[0].message, "Pairing rejected by Phone");
}
