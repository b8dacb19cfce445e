use connected::events::on_device_found;
use connected::ffi::{DiscoveredDevice, MediaState};
use connected::settings::AppSettings;
use connected::state::{add_notification, AppState, FileTransferRequest, RemoteMedia};
use connected::state::DeviceInfo;
use connected::view::{
    bluetooth_on, device_card_view, send_dialog_view, device_list_view, CardActions, expire_notifications, media_summary, on_sync_request_failed,
    remote_media_target, select_phone_device, set_clipboard_sync, set_media_control,
    transfer_requests_view, wifi_on, NOTIFICATION_LIFETIME_MS,
};

fn found_device(id: &str, ip: &str) -> DiscoveredDevice {
    DiscoveredDevice {
        id: id.to_string(),
        name: format!("Dev {}", id),
        ip: ip.to_string(),
        port: 4000,
        device_type: "android".to_string(),
    }
}

fn offer(id: &str, t: u64) -> FileTransferRequest {
    FileTransferRequest {
        id: id.to_string(),
        filename: format!("{}.txt", id),
        size: 10,
        from_device: "Phone".to_string(),
        from_fingerprint: "fp".to_string(),
        timestamp: t,
    }
}

#[test]
fn listed_devices_carry_pending_marks() {
    let mut st = AppState::new(AppSettings::default(), 0);
    on_device_found(&mut st, found_device("a", "10.0.0.1"), false);
    on_device_found(&mut st, found_device("b", "10.0.0.2"), false);
    st.pending_pairings.insert("b".to_string(), ());
    let list = device_list_view(&st);
    assert_eq!(list.len(), 2);
    let a = list.iter().find(|d| d.id == "a").unwrap();
    let b = list.iter().find(|d| d.id == "b").unwrap();
    assert!(!a.is_pending);
    assert!(b.is_pending);
    assert_eq!(b.ip, "10.0.0.2");
    assert!(!st.devices.get("b").unwrap().is_pending);
}

#[test]
fn notifications_leave_after_five_seconds() {
    let mut st = AppState::new(AppSettings::default(), 0);
    add_notification(&mut st, "T", "old", "", 1_000);
    add_notification(&mut st, "T", "new", "", 4_000);
    expire_notifications(&mut st, 1_000 + NOTIFICATION_LIFETIME_MS);
    assert_eq!(st.notifications.len(), 1);
    assert_eq!(st.notifications[0].message, "new");
    expire_notifications(&mut st, 4_000 + NOTIFICATION_LIFETIME_MS - 1);
    assert_eq!(st.notifications.len(), 1);
    expire_notifications(&mut st, 9_000);
    assert!(st.notifications.is_empty());
}

#[test]
fn notifications_from_the_future_stay() {
    let mut st = AppState::new(AppSettings::default(), 0);
    add_notification(&mut st, "T", "later", "", 50_000);
    expire_notifications(&mut st, 10);
    assert_eq!(st.notifications.len(), 1);
}

#[test]
fn offers_are_listed_newest_first() {
    let mut st = AppState::new(AppSettings::default(), 0);
    st.file_transfer_requests.insert("x".to_string(), offer("x", 20));
    st.file_transfer_requests.insert("y".to_string(), offer("y", 50));
    st.file_transfer_requests.insert("z".to_string(), offer("z", 30));
    let list = transfer_requests_view(&st);
    let ids: Vec<&str> = list.iter().map(|r| r.id.as_str()).collect();
    assert_eq!(ids, vec!["y", "z", "x"]);
}

#[test]
fn media_summary_of_nothing_and_of_a_phone() {
    let mut st = AppState::new(AppSettings::default(), 0);
    let s = media_summary(&st);
    assert_eq!(s.title, "Not Playing");
    assert_eq!(s.artist, "");
    assert!(!s.playing);
    assert_eq!(s.source_device_id, "local");
    st.current_media = Some(RemoteMedia {
        state: MediaState { title: None, artist: Some("Band".to_string()), album: None, playing: true },
        source_device_id: "d1".to_string(),
    });
    let s = media_summary(&st);
    assert_eq!(s.title, "Unknown Title");
    assert_eq!(s.artist, "Band");
    assert!(s.playing);
    assert_eq!(s.source_device_id, "d1");
}

#[test]
fn selecting_a_phone_asks_for_what_is_missing() {
    let mut settings = AppSettings::default();
    settings.auto_sync_messages = true;
    settings.auto_sync_calls = false;
    settings.auto_sync_contacts = true;
    let mut st = AppState::new(settings, 0);
    let r = select_phone_device(&mut st, Some("d1".to_string()));
    assert!(r.conversations);
    assert!(!r.call_log);
    assert!(r.contacts);
    assert_eq!(st.phone_data_device_id.as_deref(), Some("d1"));
    let r = select_phone_device(&mut st, None);
    assert!(!r.conversations && !r.call_log && !r.contacts);
    assert_eq!(st.phone_data_device_id, None);
}

#[test]
fn clipboard_sync_switch_marks_current_text_seen() {
    let mut st = AppState::new(AppSettings::default(), 0);
    set_clipboard_sync(&mut st, true, "hello".to_string(), 7);
    assert!(st.settings.clipboard_sync_enabled);
    assert_eq!(st.last_clipboard, "hello");
    assert_eq!(st.notifications.last().unwrap().message, "Sync Started (Trusted Devices)");
    set_clipboard_sync(&mut st, false, "other".to_string(), 8);
    assert!(!st.settings.clipboard_sync_enabled);
    assert_eq!(st.last_clipboard, "hello");
    assert_eq!(st.notifications.last().unwrap().message, "Sync Stopped");
    assert_eq!(st.notifications.last().unwrap().title, "Clipboard Sync");
}

#[test]
fn media_control_switch_tells_only_when_asked() {
    let mut st = AppState::new(AppSettings::default(), 0);
    set_media_control(&mut st, true, false, 1);
    assert!(st.media_enabled);
    assert!(st.notifications.is_empty());
    set_media_control(&mut st, false, true, 2);
    assert!(!st.media_enabled);
    assert_eq!(st.notifications[0].message, "Media control disabled");
}

#[test]
fn media_commands_go_to_the_reporting_phone() {
    let mut st = AppState::new(AppSettings::default(), 0);
    on_device_found(&mut st, found_device("d1", "10.0.0.5"), false);
    assert!(remote_media_target(&st).is_none());
    st.last_remote_media_device_id = Some("d1".to_string());
    assert_eq!(remote_media_target(&st).unwrap().ip, "10.0.0.5");
    st.last_remote_media_device_id = Some("local".to_string());
    assert!(remote_media_target(&st).is_none());
    st.last_remote_media_device_id = Some("gone".to_string());
    assert!(remote_media_target(&st).is_none());
}

#[test]
fn failed_sync_requests_are_explained() {
    let mut st = AppState::new(AppSettings::default(), 0);
    on_sync_request_failed(&mut st, "request timed out after 10s", 3);
    assert_eq!(st.notifications[0].message, "Connection timed out. Is the device online?");
    on_sync_request_failed(&mut st, "refused", 4);
    assert_eq!(st.notifications[1].message, "Sync failed: refused");
    assert_eq!(st.notifications[1].title, "Phone");
}

#[test]
fn radio_states_from_tool_output() {
    assert!(bluetooth_on("0: hci0: Bluetooth\n\tSoft blocked: no\n\tHard blocked: no\n"));
    assert!(!bluetooth_on("0: hci0: Bluetooth\n\tSoft blocked: yes\n\tHard blocked: no\n"));
    assert!(!bluetooth_on("\tHard blocked: yes\n"));
    assert!(wifi_on("enabled\n"));
    assert!(wifi_on("  enabled "));
    assert!(!wifi_on("disabled\n"));
    assert!(!wifi_on(""));
}

#[test]
fn device_cards_show_state_and_buttons() {
    let mut d = DeviceInfo {
        id: "d1".to_string(),
        name: "Pixel".to_string(),
        ip: "192.168.1.4".to_string(),
        port: 44555,
        device_type: "Unknown".to_string(),
        is_trusted: false,
        is_pending: false,
    };
    let v = device_card_view(&d, false, false);
    assert_eq!(v.card_class, "device-card");
    assert_eq!(v.address, "192.168.1.4:44555");
    assert!(!v.show_device_type);
    assert_eq!(v.status, "Not paired");
    assert_eq!(v.actions, CardActions::PairOrSend);
    assert!(!v.opens_on_click);
    d.is_pending = true;
    assert_eq!(device_card_view(&d, false, true).actions, CardActions::Waiting);
    d.is_trusted = true;
    d.ip = "0.0.0.0".to_string();
    d.device_type = "android".to_string();
    let v = device_card_view(&d, true, true);
    assert_eq!(v.card_class, "device-card selected");
    assert_eq!(v.address, "Offline (BLE)");
    assert!(v.show_device_type);
    assert_eq!(v.status, "Trusted");
    assert_eq!(v.actions, CardActions::Open);
    assert!(v.opens_on_click);
    assert_eq!(device_card_view(&d, true, false).actions, CardActions::Nothing);
}

#[test]
fn send_dialog_lists_a_few_paths() {
    let paths: Vec<String> = ["/a", "/b", "/c", "/d", "/e"].iter().map(|p| p.to_string()).collect();
    let v = send_dialog_view(false, &None, &paths);
    assert_eq!(v.title, " Send Files");
    assert_eq!(v.device_name, "Unknown Device");
    assert_eq!(v.button_text, " Send 5 Files");
    assert_eq!(v.listed_paths, vec!["/a".to_string(), "/b".to_string()]);
    assert_eq!(v.more_text.as_deref(), Some("... and 3 more"));
    assert!(v.can_send);
    let one = vec!["/only".to_string()];
    let v = send_dialog_view(false, &None, &one);
    assert_eq!(v.button_text, " Send File");
    assert_eq!(v.listed_paths, one);
    assert!(v.more_text.is_none());
    let v = send_dialog_view(true, &None, &Vec::new());
    assert_eq!(v.title, " Send Folder");
    assert_eq!(v.button_text, " Send Folder");
    assert_eq!(v.support_text, "Folder will be sent as a zip archive");
    assert!(!v.can_send);
}

#[test]
fn selection_boxes_show_their_state() {
    assert_eq!(connected::view::checkbox_class(true, true), "checkbox checked");
    assert_eq!(connected::view::checkbox_class(false, true), "checkbox partial");
    assert_eq!(connected::view::checkbox_class(false, false), "checkbox");
}
