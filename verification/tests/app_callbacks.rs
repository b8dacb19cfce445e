use connected::callbacks::{AppClipboardCallback, AppDiscoveryCallback, AppFileTransferCallback};
use connected::ffi::DiscoveredDevice;
use connected::settings::AppSettings;
use connected::state::AppState;

fn device(id: &str, ip: &str) -> DiscoveredDevice {
    DiscoveredDevice {
        id: id.to_string(),
        name: format!("Dev {}", id),
        ip: ip.to_string(),
        port: 4000,
        device_type: "android".to_string(),
    }
}

#[test]
fn found_device_takes_over_its_address() {
    let mut st = AppState::new(AppSettings::default(), 0);
    let cb = AppDiscoveryCallback;
    cb.on_device_found(&mut st, device("a", "10.0.0.5"), 1);
    cb.on_device_found(&mut st, device("b", "10.0.0.6"), 2);
    assert_eq!(st.notifications.len(), 2);
    assert_eq!(st.notifications[0].message, "Dev a is now available");
    // a restarted with a new id on the same address
    cb.on_device_found(&mut st, device("c", "10.0.0.5"), 3);
    assert!(!st.devices.contains_key("a"));
    assert!(st.devices.contains_key("b"));
    assert!(st.devices.contains_key("c"));
    // seen again: no new notification
    cb.on_device_found(&mut st, device("c", "10.0.0.5"), 4);
    assert_eq!(st.notifications.len(), 3);
}

#[test]
fn lost_device_is_reported_once() {
    let mut st = AppState::new(AppSettings::default(), 0);
    let cb = AppDiscoveryCallback;
    cb.on_device_found(&mut st, device("a", "10.0.0.5"), 1);
    cb.on_device_lost(&mut st, "a".to_string(), 2);
    cb.on_device_lost(&mut st, "a".to_string(), 3);
    assert_eq!(st.devices.len(), 0);
    assert_eq!(st.notifications.len(), 2);
    assert_eq!(st.notifications[1].title, "Device Lost");
    assert_eq!(st.notifications[1].message, "Dev a disconnected");
    cb.on_error(&mut st, "boom".to_string(), 4);
    assert_eq!(st.notifications[2].title, "Discovery Error");
    assert_eq!(st.notifications[2].icon, "\u{26A0}\u{FE0F}");
}

#[test]
fn transfer_notifications() {
    let mut st = AppState::new(AppSettings::default(), 0);
    let cb = AppFileTransferCallback;
    cb.on_transfer_starting(&mut st, "a.txt".to_string(), 10, 1);
    cb.on_transfer_completed(&mut st, "a.txt".to_string(), "1.5", 2);
    cb.on_transfer_failed(&mut st, "disk full".to_string(), 3);
    cb.on_transfer_cancelled(&mut st, 4);
    let msgs: Vec<&str> = st.notifications.iter().map(|n| n.message.as_str()).collect();
    assert_eq!(
        msgs,
        vec!["Receiving a.txt", "a.txt received (1.5 MB)", "disk full", "The file transfer was cancelled"]
    );
    assert_eq!(st.notifications[1].icon, "\u{2705}");
}

#[test]
fn received_clipboard_preview_is_cut_at_fifty_bytes() {
    let mut st = AppState::new(AppSettings::default(), 0);
    let cb = AppClipboardCallback;
    let short = "hello".to_string();
    cb.on_clipboard_received(&mut st, short.clone(), "Phone".to_string(), 1);
    assert_eq!(st.last_clipboard, "hello");
    assert_eq!(st.notifications[0].message, "From Phone: hello");
    let exact = "x".repeat(50);
    cb.on_clipboard_received(&mut st, exact.clone(), "Phone".to_string(), 2);
    assert_eq!(st.notifications[1].message, format!("From Phone: {}", exact));
    let long = format!("{}{}", "é".repeat(25), "tail");
    cb.on_clipboard_received(&mut st, long.clone(), "Phone".to_string(), 3);
    assert_eq!(st.notifications[2].message, format!("From Phone: {}...", "é".repeat(25)));
    assert_eq!(st.last_clipboard, long);
}

#[test]
fn failed_clipboard_send_is_reported() {
    let mut st = AppState::new(AppSettings::default(), 0);
    let cb = AppClipboardCallback;
    cb.on_clipboard_sent(&mut st, true, None, 1);
    assert_eq!(st.notifications.len(), 0);
    cb.on_clipboard_sent(&mut st, false, None, 2);
    cb.on_clipboard_sent(&mut st, false, Some("offline".to_string()), 3);
    assert_eq!(st.notifications[0].message, "Unknown error");
    assert_eq!(st.notifications[1].message, "offline");
}
