use connected::settings::{
    get_device_name_setting, get_notifications_enabled_setting, get_saved_devices_setting,
    remove_device_from_settings, save_device_to_settings, set_device_name_setting,
    set_notifications_enabled_setting, AppSettings, SavedDeviceInfo,
};
use connected::state::{
    set_notifications_gated,
    add_file_transfer_request, add_notification, cleanup_old_transfer_requests, get_notifications,
    is_contacts_synced, is_messages_synced, mark_contacts_synced, mark_messages_synced,
    remove_file_transfer_request, set_phone_contacts, set_phone_data_device, AppState,
    FileTransferRequest, MAX_NOTIFICATIONS, TRANSFER_REQUEST_TIMEOUT_MS,
};

fn fresh() -> AppState {
    AppState::new(AppSettings::default(), 1_000)
}

#[test]
fn default_settings() {
    let s = AppSettings::default();
    assert!(!s.clipboard_sync_enabled);
    assert!(!s.media_enabled);
    assert!(get_notifications_enabled_setting(&s));
    assert_eq!(get_device_name_setting(&s), None);
    assert_eq!(get_saved_devices_setting(&s).len(), 0);
}

#[test]
fn saved_devices_are_replaced_and_removed() {
    let mut s = AppSettings::default();
    let info = |ip: &str| SavedDeviceInfo {
        name: "Phone".to_string(),
        ip: ip.to_string(),
        port: 4000,
        device_type: "android".to_string(),
    };
    save_device_to_settings(&mut s, "d1".to_string(), info("10.0.0.1"));
    save_device_to_settings(&mut s, "d1".to_string(), info("10.0.0.2"));
    save_device_to_settings(&mut s, "d2".to_string(), info("10.0.0.3"));
    assert_eq!(s.saved_devices.len(), 2);
    assert_eq!(s.saved_devices.get("d1").unwrap().ip, "10.0.0.2");
    remove_device_from_settings(&mut s, "d1");
    assert!(!s.saved_devices.contains_key("d1"));
    assert!(s.saved_devices.contains_key("d2"));
    set_device_name_setting(&mut s, "Desk".to_string());
    assert_eq!(get_device_name_setting(&s).as_deref(), Some("Desk"));
}

#[test]
fn notifications_keep_the_five_newest() {
    let mut st = fresh();
    for i in 0..7u64 {
        add_notification(&mut st, "T", &format!("m{}", i), "", 100 + i);
    }
    let ns = get_notifications(&st);
    assert_eq!(ns.len(), MAX_NOTIFICATIONS);
    let ids: Vec<u64> = ns.iter().map(|n| n.id).collect();
    assert_eq!(ids, vec![3, 4, 5, 6, 7]);
    assert_eq!(ns[4].message, "m6");
    assert_eq!(ns[4].timestamp, 106);
    assert_eq!(st.notification_counter, 7);
}

#[test]
fn notifications_off_adds_nothing() {
    let mut st = fresh();
    set_notifications_enabled_setting(&mut st.settings, false);
    add_notification(&mut st, "T", "m", "", 5);
    assert_eq!(get_notifications(&st).len(), 0);
    assert_eq!(st.notification_counter, 0);
}

fn request(id: &str, ts: u64) -> FileTransferRequest {
    FileTransferRequest {
        id: id.to_string(),
        filename: "f.txt".to_string(),
        size: 10,
        from_device: "Phone".to_string(),
        from_fingerprint: "fp".to_string(),
        timestamp: ts,
    }
}

#[test]
fn stale_transfer_requests_are_dropped() {
    let mut st = fresh();
    add_file_transfer_request(&mut st, request("old", 0));
    add_file_transfer_request(&mut st, request("new", 200_000));
    cleanup_old_transfer_requests(&mut st, TRANSFER_REQUEST_TIMEOUT_MS);
    assert!(!st.file_transfer_requests.contains_key("old"));
    assert!(st.file_transfer_requests.contains_key("new"));
    let r = remove_file_transfer_request(&mut st, "new").unwrap();
    assert_eq!(r.timestamp, 200_000);
    assert!(remove_file_transfer_request(&mut st, "new").is_none());
}

#[test]
fn switching_phone_clears_its_data() {
    let mut st = fresh();
    set_phone_data_device(&mut st, Some("p1".to_string()));
    mark_messages_synced(&mut st);
    mark_contacts_synced(&mut st);
    set_phone_contacts(&mut st, vec![], 50);
    assert!(is_messages_synced(&st) && is_contacts_synced(&st));
    set_phone_data_device(&mut st, Some("p1".to_string()));
    assert!(is_messages_synced(&st));
    set_phone_data_device(&mut st, Some("p2".to_string()));
    assert!(!is_messages_synced(&st) && !is_contacts_synced(&st));
    assert_eq!(st.phone_data_device_id.as_deref(), Some("p2"));
}

#[test]
fn ungated_notifications_are_kept_with_the_setting_off() {
    let mut st = fresh();
    set_notifications_gated(&mut st, false);
    set_notifications_enabled_setting(&mut st.settings, false);
    for i in 0..3u64 {
        add_notification(&mut st, "T", "m", "", i);
    }
    assert_eq!(st.notification_counter, 3);
    assert_eq!(get_notifications(&st).last().unwrap().id, 3);
    set_notifications_gated(&mut st, true);
    add_notification(&mut st, "T", "m", "", 9);
    assert_eq!(st.notification_counter, 3);
}

#[test]
fn contacts_synced_until_the_phone_changes() {
    let mut st = fresh();
    assert!(!is_contacts_synced(&st));
    set_phone_data_device(&mut st, Some("p1".to_string()));
    mark_contacts_synced(&mut st);
    set_phone_data_device(&mut st, Some("p1".to_string()));
    assert!(is_contacts_synced(&st));
    set_phone_data_device(&mut st, Some("p2".to_string()));
    assert!(!is_contacts_synced(&st));
    mark_contacts_synced(&mut st);
    assert!(is_contacts_synced(&st));
}
