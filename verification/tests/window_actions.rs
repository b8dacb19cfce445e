use connected::actions::{
    begin_pairing, cancel_pairing, close_preview, finish_pairing, on_device_refused,
    on_device_trusted, on_download_finished, on_download_started, on_remote_listing,
    on_remote_listing_failed, on_thumbnail, refuse_offline_pairing, refuse_offline_transfer,
};
use connected::events::on_device_found;
use connected::ffi::DiscoveredDevice;
use connected::settings::AppSettings;
use connected::state::{AppState, PairingRequest};

fn state_with_device() -> AppState {
    let mut st = AppState::new(AppSettings::default(), 0);
    on_device_found(
        &mut st,
        DiscoveredDevice {
            id: "d1".to_string(),
            name: "Phone".to_string(),
            ip: "10.0.0.2".to_string(),
            port: 4000,
            device_type: "android".to_string(),
        },
        false,
    );
    st
}

#[test]
fn offline_devices_get_nothing() {
    let mut st = state_with_device();
    assert!(refuse_offline_transfer(&mut st, "0.0.0.0", 1));
    assert!(!refuse_offline_transfer(&mut st, "10.0.0.2", 1));
    assert!(refuse_offline_pairing(&mut st, "0.0.0.0", 2));
    assert_eq!(st.notifications.len(), 2);
    assert_eq!(st.notifications[0].message, "Offline transfer not supported. Connect to same network.");
}

#[test]
fn pairing_course() {
    let mut st = state_with_device();
    assert_eq!(begin_pairing(&mut st, "10.0.0.2", 4000).as_deref(), Some("d1"));
    assert!(st.pending_pairings.contains_key("d1"));
    assert_eq!(begin_pairing(&mut st, "10.0.0.2", 4001), None);
    finish_pairing(&mut st, Some("d1".to_string()), Err("Pairing REJECTED by peer".to_string()), 3);
    assert!(!st.pending_pairings.contains_key("d1"));
    assert_eq!(st.notifications.len(), 0);
    finish_pairing(&mut st, Some("d1".to_string()), Err("timeout".to_string()), 4);
    assert_eq!(st.notifications[0].title, "Pairing Failed");
    finish_pairing(&mut st, None, Ok(()), 5);
    assert_eq!(st.notifications[1].message, "Successfully paired with device");
    st.pending_pairings.insert("d1".to_string(), ());
    cancel_pairing(&mut st, "d1");
    assert!(!st.pending_pairings.contains_key("d1"));
}

#[test]
fn trusting_and_refusing_requests() {
    let mut st = state_with_device();
    let req = |fp: &str| PairingRequest {
        fingerprint: fp.to_string(),
        device_name: "Phone".to_string(),
        device_id: "d1".to_string(),
    };
    st.pairing_requests = vec![req("a"), req("b"), req("a")];
    on_device_refused(&mut st, "b");
    assert_eq!(st.pairing_requests.len(), 2);
    on_device_trusted(&mut st, "a", "d1", 6);
    assert!(st.pairing_requests.is_empty());
    assert!(st.devices.get("d1").unwrap().is_trusted);
    assert_eq!(st.notifications[0].message, "Device trusted successfully");
}

#[test]
fn browsing_previews_and_downloads() {
    let mut st = state_with_device();
    on_remote_listing(&mut st, "/Music".to_string(), vec![], 7);
    assert_eq!(st.remote_path, "/Music");
    assert!(st.remote_files.is_some());
    assert_eq!(st.remote_files_update, 7);
    on_remote_listing_failed(&mut st, "offline", 8);
    assert_eq!(st.notifications[0].message, "Failed to list: offline");
    on_thumbnail(&mut st, "/a.png".to_string(), vec![], 9);
    assert!(!st.thumbnails.contains_key("/a.png"));
    on_thumbnail(&mut st, "/a.png".to_string(), vec![1, 2], 9);
    assert!(st.thumbnails.contains_key("/a.png"));
    close_preview(&mut st);
    assert!(st.preview_data.is_none());
    on_download_started(&mut st, "a.txt", 10);
    on_download_finished(&mut st, "a.txt", Ok(()), 11);
    on_download_finished(&mut st, "a.txt", Err("disk full".to_string()), 12);
    let msgs: Vec<&str> = st.notifications.iter().map(|n| n.message.as_str()).collect();
    assert_eq!(msgs[1..], ["Downloading a.txt...", "Downloaded a.txt", "disk full"]);
}
