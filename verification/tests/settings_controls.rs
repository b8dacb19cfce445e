use connected::controls::{
    restore_devices_at_startup,
    autostart_on_startup, startup_device_name, AutostartStartup,
    devices_to_reinject, on_autostart_set, on_download_directory_set, on_shared_folder_set,
    on_update_checked, perform_update, UpdateStep,
};
use connected::ffi::{DiscoveredDevice, UpdateInfo};
use connected::settings::{save_device_to_settings, AppSettings, SavedDeviceInfo};
use connected::state::AppState;

fn saved(ip: &str) -> SavedDeviceInfo {
    SavedDeviceInfo { name: "Phone".to_string(), ip: ip.to_string(), port: 4000, device_type: "android".to_string() }
}

fn update(has_update: bool, url: Option<&str>) -> UpdateInfo {
    UpdateInfo {
        has_update,
        latest_version: "2.1.0".to_string(),
        current_version: "2.0.0".to_string(),
        download_url: url.map(|u| u.to_string()),
        release_notes: None,
    }
}

#[test]
fn offline_devices_are_not_announced_again() {
    let mut s = AppSettings::default();
    save_device_to_settings(&mut s, "a".to_string(), saved("10.0.0.2"));
    save_device_to_settings(&mut s, "b".to_string(), saved("0.0.0.0"));
    save_device_to_settings(&mut s, "c".to_string(), saved("10.0.0.3"));
    let r = devices_to_reinject(&s);
    let ids: Vec<&str> = r.iter().map(|(id, _)| id.as_str()).collect();
    assert_eq!(ids, vec!["a", "c"]);
    assert_eq!(r[1].1.ip, "10.0.0.3");
}

#[test]
fn folder_and_startup_changes_are_reported() {
    let mut st = AppState::new(AppSettings::default(), 0);
    on_download_directory_set(&mut st, "/data/in", Ok(()), 1);
    assert_eq!(st.notifications[0].message, "Download directory set to /data/in");
    on_download_directory_set(&mut st, "/nope", Err("not writable".to_string()), 2);
    assert_eq!(st.notifications[1].title, "Error");
    assert_eq!(st.notifications[1].message, "Failed to set download directory: not writable");
    on_shared_folder_set(&mut st, "/srv/share", 3);
    assert_eq!(st.notifications[2].message, "Shared folder set to /srv/share");
    on_autostart_set(&mut st, true, Ok(true), 4);
    assert_eq!(st.notifications[3].message, "Connected will start automatically when you log in");
    on_autostart_set(&mut st, true, Ok(false), 5);
    assert_eq!(
        st.notifications[4].message,
        "Autostart state could not be verified. Check your system startup settings."
    );
    on_autostart_set(&mut st, false, Err("denied".to_string()), 6);
    assert_eq!(st.notifications[4].message, "Failed to update startup setting: denied");
}

#[test]
fn update_checks_and_installs() {
    let mut st = AppState::new(AppSettings::default(), 0);
    on_update_checked(&mut st, &Ok(update(true, None)), 1);
    assert_eq!(st.notifications[0].message, "Version 2.1.0 is available");
    on_update_checked(&mut st, &Ok(update(false, None)), 2);
    assert_eq!(st.notifications[1].message, "You are up to date");
    on_update_checked(&mut st, &Err("offline".to_string()), 3);
    assert_eq!(st.notifications[2].title, "Update Check Failed");
    assert!(matches!(perform_update(&mut st, &None, true, 4), UpdateStep::Nothing));
    assert!(matches!(perform_update(&mut st, &Some(update(true, None)), true, 5), UpdateStep::NoDownload));
    assert_eq!(st.notifications.last().unwrap().message, "No download URL found");
    match perform_update(&mut st, &Some(update(true, Some("https://x/app.AppImage"))), true, 6) {
        UpdateStep::Install { url } => assert_eq!(url, "https://x/app.AppImage"),
        other => panic!("unexpected {:?}", other),
    }
    assert_eq!(st.notifications.last().unwrap().message, "Downloading update…");
    match perform_update(&mut st, &Some(update(true, Some("https://x/dl"))), false, 7) {
        UpdateStep::OpenUrl { url } => assert_eq!(url, "https://x/dl"),
        other => panic!("unexpected {:?}", other),
    }
}

#[test]
fn startup_follows_the_system_entry() {
    assert_eq!(autostart_on_startup(true, true), AutostartStartup { refresh_entry: true, store_setting: None });
    assert_eq!(autostart_on_startup(true, false), AutostartStartup { refresh_entry: false, store_setting: Some(true) });
    assert_eq!(autostart_on_startup(false, true), AutostartStartup { refresh_entry: false, store_setting: Some(false) });
    assert_eq!(autostart_on_startup(false, false), AutostartStartup { refresh_entry: false, store_setting: None });
    let mut s = AppSettings::default();
    assert_eq!(startup_device_name(&s, "host-1".to_string()), "host-1");
    s.device_name = Some("Desk".to_string());
    assert_eq!(startup_device_name(&s, "host-1".to_string()), "Desk");
}

#[test]
fn startup_restores_trusted_offline_devices() {
    let mut s = AppSettings::default();
    save_device_to_settings(&mut s, "a".to_string(), saved("10.0.0.2"));
    save_device_to_settings(&mut s, "b".to_string(), saved("10.0.0.3"));
    save_device_to_settings(&mut s, "c".to_string(), saved("0.0.0.0"));
    save_device_to_settings(&mut s, "d".to_string(), saved("10.0.0.4"));
    let mut st = AppState::new(s, 0);
    st.pending_pairings.insert("a".to_string(), ());
    let found = DiscoveredDevice {
        id: "a".to_string(),
        name: "Found".to_string(),
        ip: "10.0.0.9".to_string(),
        port: 5000,
        device_type: "linux".to_string(),
    };
    restore_devices_at_startup(
        &mut st,
        vec![(found, true)],
        vec!["a".to_string(), "b".to_string(), "c".to_string()],
    );
    assert!(!st.pending_pairings.contains_key("a"));
    let a = st.devices.get("a").unwrap();
    assert_eq!(a.ip, "10.0.0.9");
    assert!(a.is_trusted);
    let b = st.devices.get("b").unwrap();
    assert_eq!(b.ip, "0.0.0.0");
    assert_eq!(b.port, 4000);
    assert!(b.is_trusted && !b.is_pending);
    assert!(st.devices.get("c").is_none());
    assert!(st.devices.get("d").is_none());
    assert_eq!(st.devices.len(), 2);
}
