//! Persistent user settings: the toggles, the chosen device name and the
//! devices remembered across restarts. Reading and writing the settings
//! file is done by the application around this model.

use vstd::prelude::*;
use crate::strmap::StrMap;

verus! {

/// A device remembered in the settings file.
#[derive(Debug, Clone)]
pub struct SavedDeviceInfo {
    pub name: String,
    pub ip: String,
    pub port: u16,
    pub device_type: String,
}

/// The persistent settings.
pub struct AppSettings {
    pub clipboard_sync_enabled: bool,
    pub media_enabled: bool,
    pub auto_sync_messages: bool,
    pub auto_sync_calls: bool,
    pub auto_sync_contacts: bool,
    pub notifications_enabled: bool,
    pub device_name: Option<String>,
    pub saved_devices: StrMap<SavedDeviceInfo>,
}

impl AppSettings {
    /// Well-formedness of the saved-devices map.
    pub open spec fn wf(&self) -> bool {
        self.saved_devices.wf()
    }

    /// The settings a fresh installation starts with.
    pub open spec fn is_default(&self) -> bool {
        &&& !self.clipboard_sync_enabled
        &&& !self.media_enabled
        &&& !self.auto_sync_messages
        &&& !self.auto_sync_calls
        &&& !self.auto_sync_contacts
        &&& self.notifications_enabled
        &&& self.device_name is None
        &&& self.saved_devices@ == Map::<Seq<char>, SavedDeviceInfo>::empty()
    }
}

impl Default for AppSettings {
    /// Everything off except notifications; no name, no saved devices.
    fn default() -> (s: Self)
        ensures
            s.wf(),
            s.is_default(),
    {
        AppSettings {
            clipboard_sync_enabled: false,
            media_enabled: false,
            auto_sync_messages: false,
            auto_sync_calls: false,
            auto_sync_contacts: false,
            notifications_enabled: true,
            device_name: None,
            saved_devices: StrMap::new(),
        }
    }
}

/// The remembered devices.
pub fn get_saved_devices_setting(settings: &AppSettings) -> (m: &StrMap<SavedDeviceInfo>)
    ensures
        m@ == settings.saved_devices@,
{
    &settings.saved_devices
}

/// Remembers a device, replacing what was remembered under the same id.
pub fn save_device_to_settings(settings: &mut AppSettings, device_id: String, info: SavedDeviceInfo)
    requires
        old(settings).wf(),
    ensures
        final(settings).wf(),
        final(settings).saved_devices@ == old(settings).saved_devices@.insert(device_id@, info),
        *final(settings) == (AppSettings { saved_devices: final(settings).saved_devices, ..*old(settings) }),
        final(settings).clipboard_sync_enabled == old(settings).clipboard_sync_enabled,
        final(settings).media_enabled == old(settings).media_enabled,
        final(settings).auto_sync_messages == old(settings).auto_sync_messages,
        final(settings).auto_sync_calls == old(settings).auto_sync_calls,
        final(settings).auto_sync_contacts == old(settings).auto_sync_contacts,
        final(settings).notifications_enabled == old(settings).notifications_enabled,
        final(settings).device_name == old(settings).device_name,
{
    settings.saved_devices.insert(device_id, info);
}

/// Forgets a remembered device.
pub fn remove_device_from_settings(settings: &mut AppSettings, device_id: &str)
    requires
        old(settings).wf(),
    ensures
        final(settings).wf(),
        final(settings).saved_devices@ == old(settings).saved_devices@.remove(device_id@),
        *final(settings) == (AppSettings { saved_devices: final(settings).saved_devices, ..*old(settings) }),
        final(settings).clipboard_sync_enabled == old(settings).clipboard_sync_enabled,
        final(settings).media_enabled == old(settings).media_enabled,
        final(settings).auto_sync_messages == old(settings).auto_sync_messages,
        final(settings).auto_sync_calls == old(settings).auto_sync_calls,
        final(settings).auto_sync_contacts == old(settings).auto_sync_contacts,
        final(settings).notifications_enabled == old(settings).notifications_enabled,
        final(settings).device_name == old(settings).device_name,
{
    let _ = settings.saved_devices.remove(device_id);
}

/// Whether clipboard sync is on.
pub fn get_clipboard_sync_enabled(settings: &AppSettings) -> (b: bool)
    ensures
        b == settings.clipboard_sync_enabled,
{
    settings.clipboard_sync_enabled
}

/// Turns clipboard sync on or off.
pub fn set_clipboard_sync_enabled(settings: &mut AppSettings, enabled: bool)
    ensures
        *final(settings) == (AppSettings { clipboard_sync_enabled: enabled, ..*old(settings) }),
{
    settings.clipboard_sync_enabled = enabled;
}

/// Whether media control is on.
pub fn get_media_enabled_setting(settings: &AppSettings) -> (b: bool)
    ensures
        b == settings.media_enabled,
{
    settings.media_enabled
}

/// Turns media control on or off.
pub fn set_media_enabled_setting(settings: &mut AppSettings, enabled: bool)
    ensures
        *final(settings) == (AppSettings { media_enabled: enabled, ..*old(settings) }),
{
    settings.media_enabled = enabled;
}

/// Whether messages are synced automatically.
pub fn get_auto_sync_messages(settings: &AppSettings) -> (b: bool)
    ensures
        b == settings.auto_sync_messages,
{
    settings.auto_sync_messages
}

/// Turns automatic message sync on or off.
pub fn set_auto_sync_messages(settings: &mut AppSettings, enabled: bool)
    ensures
        *final(settings) == (AppSettings { auto_sync_messages: enabled, ..*old(settings) }),
{
    settings.auto_sync_messages = enabled;
}

/// Whether the call log is synced automatically.
pub fn get_auto_sync_calls(settings: &AppSettings) -> (b: bool)
    ensures
        b == settings.auto_sync_calls,
{
    settings.auto_sync_calls
}

/// Turns automatic call-log sync on or off.
pub fn set_auto_sync_calls(settings: &mut AppSettings, enabled: bool)
    ensures
        *final(settings) == (AppSettings { auto_sync_calls: enabled, ..*old(settings) }),
{
    settings.auto_sync_calls = enabled;
}

/// Whether contacts are synced automatically.
pub fn get_auto_sync_contacts(settings: &AppSettings) -> (b: bool)
    ensures
        b == settings.auto_sync_contacts,
{
    settings.auto_sync_contacts
}

/// Turns automatic contact sync on or off.
pub fn set_auto_sync_contacts(settings: &mut AppSettings, enabled: bool)
    ensures
        *final(settings) == (AppSettings { auto_sync_contacts: enabled, ..*old(settings) }),
{
    settings.auto_sync_contacts = enabled;
}

/// Whether desktop notifications are shown.
pub fn get_notifications_enabled_setting(settings: &AppSettings) -> (b: bool)
    ensures
        b == settings.notifications_enabled,
{
    settings.notifications_enabled
}

/// Turns desktop notifications on or off.
pub fn set_notifications_enabled_setting(settings: &mut AppSettings, enabled: bool)
    ensures
        *final(settings) == (AppSettings { notifications_enabled: enabled, ..*old(settings) }),
{
    settings.notifications_enabled = enabled;
}

/// The device name chosen by the user, if any.
pub fn get_device_name_setting(settings: &AppSettings) -> (n: Option<String>)
    ensures
        n == settings.device_name,
{
    match &settings.device_name {
        Some(s) => Some(s.clone()),
        None => None,
    }
}

/// Sets the device name.
pub fn set_device_name_setting(settings: &mut AppSettings, name: String)
    ensures
        *final(settings) == (AppSettings { device_name: Some(name), ..*old(settings) }),
{
    settings.device_name = Some(name);
}

} // verus!
