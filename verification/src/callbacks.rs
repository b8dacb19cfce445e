//! Reactions of the desktop application to discovery, file-transfer and
//! clipboard events: keeping the stores current and telling the user what
//! changed.

use vstd::prelude::*;
use crate::ffi::DiscoveredDevice;
use crate::state::{add_notification, device_info_of, ips_distinct, keyed_by_id, notification_added, AppState, DeviceInfo};
use crate::text::{chars_of, fitting_prefix, fitting_prefix_len, string_of, utf8_len};

verus! {

/// Handles discovery events for the desktop application.
pub struct AppDiscoveryCallback;

/// The store after a device with id `id` and address `ip` was announced:
/// other devices that claimed the same address are gone.
pub open spec fn without_stale_address(
    m: Map<Seq<char>, DeviceInfo>,
    id: Seq<char>,
    ip: Seq<char>,
) -> Map<Seq<char>, DeviceInfo> {
    m.restrict(m.dom().filter(|k: Seq<char>| !(m[k].ip@ == ip && m[k].id@ != id)))
}

/// "<name> is now available".
pub open spec fn found_message(name: Seq<char>) -> Seq<char> {
    name + " is now available"@
}

/// "<name> disconnected".
pub open spec fn lost_message(name: Seq<char>) -> Seq<char> {
    name + " disconnected"@
}

fn message_with_suffix(name: &String, suffix: &str) -> (s: String)
    ensures
        s@ == name@ + suffix@,
{
    let mut s = name.clone();
    s.append(suffix);
    s
}

impl AppDiscoveryCallback {
    /// A device was found: devices that claimed the same address under
    /// another id are dropped (the device restarted with a new id), the user
    /// is told when the id was not known yet, and the device is stored under
    /// its id.
    pub fn on_device_found(&self, state: &mut AppState, device: DiscoveredDevice, now: u64)
        requires
            old(state).wf(),
            old(state).notification_counter < u64::MAX,
        ensures
            final(state).wf(),
            final(state).devices@ == without_stale_address(
                old(state).devices@,
                device.id@,
                device.ip@,
            ).insert(device.id@, device_info_of(device)),
            old(state).devices@.contains_key(device.id@) ==> final(state).notifications
                == old(state).notifications && final(state).notification_counter == old(
                state,
            ).notification_counter,
            !old(state).devices@.contains_key(device.id@) ==> notification_added(
                *old(state),
                *final(state),
                "Device Found"@,
                found_message(device.name@),
                "\u{1F4F1}"@,
                now,
            ),
            *final(state) == (AppState {
                devices: final(state).devices,
                notifications: final(state).notifications,
                notification_counter: final(state).notification_counter,
                ..*old(state)
            }),
    {
        let info = DeviceInfo::from(device);
        let ip = info.ip.clone();
        let id = info.id.clone();
        let ghost before = state.devices@;
        let keep = |_k: &String, d: &DeviceInfo| -> (b: bool)
            ensures
                b == !(d.ip@ == ip@ && d.id@ != id@),
            { !(d.ip == ip && d.id != id) };
        state.devices.retain(
            keep,
            Ghost(|_k: Seq<char>, d: DeviceInfo| !(d.ip@ == ip@ && d.id@ != id@)),
        );
        assert(state.devices@ =~= without_stale_address(before, id@, ip@));
        if !state.devices.contains_key(&info.id) {
            let msg = message_with_suffix(&info.name, " is now available");
            add_notification(state, "Device Found", &msg, "\u{1F4F1}", now);
        }
        state.devices.insert(info.id.clone(), info);
        proof {
            let m = state.devices@;
            assert forall|k: Seq<char>| #[trigger] m.contains_key(k) implies m[k].id@ == k by {
                if k != id@ {
                    assert(before.contains_key(k));
                }
            }
        }
    }

    /// A device went away: it leaves the store, and the user is told when it
    /// was known.
    pub fn on_device_lost(&self, state: &mut AppState, device_id: String, now: u64)
        requires
            old(state).wf(),
            old(state).notification_counter < u64::MAX,
        ensures
            final(state).wf(),
            final(state).devices@ == old(state).devices@.remove(device_id@),
            !old(state).devices@.contains_key(device_id@) ==> final(state).notifications
                == old(state).notifications && final(state).notification_counter == old(
                state,
            ).notification_counter,
            old(state).devices@.contains_key(device_id@) ==> notification_added(
                *old(state),
                *final(state),
                "Device Lost"@,
                lost_message(old(state).devices@[device_id@].name@),
                "\u{1F4F4}"@,
                now,
            ),
            *final(state) == (AppState {
                devices: final(state).devices,
                notifications: final(state).notifications,
                notification_counter: final(state).notification_counter,
                ..*old(state)
            }),
    {
        let removed = state.devices.remove(device_id.as_str());
        if let Some(device) = removed {
            let msg = message_with_suffix(&device.name, " disconnected");
            add_notification(state, "Device Lost", &msg, "\u{1F4F4}", now);
        }
    }

    /// Discovery reported an error: the user is told.
    pub fn on_error(&self, state: &mut AppState, error_msg: String, now: u64)
        requires
            old(state).wf(),
            old(state).notification_counter < u64::MAX,
        ensures
            final(state).wf(),
            notification_added(
                *old(state),
                *final(state),
                "Discovery Error"@,
                error_msg@,
                "\u{26A0}\u{FE0F}"@,
                now,
            ),
            *final(state) == (AppState {
                notifications: final(state).notifications,
                notification_counter: final(state).notification_counter,
                ..*old(state)
            }),
    {
        add_notification(state, "Discovery Error", error_msg.as_str(), "\u{26A0}\u{FE0F}", now);
    }
}


/// Handles file-transfer events for the desktop application.
pub struct AppFileTransferCallback;

/// "Receiving <filename>".
pub open spec fn receiving_message(filename: Seq<char>) -> Seq<char> {
    "Receiving "@ + filename
}

/// "<filename> received (<size> MB)".
pub open spec fn received_message(filename: Seq<char>, size_mb: Seq<char>) -> Seq<char> {
    filename + " received ("@ + size_mb + " MB)"@
}

impl AppFileTransferCallback {
    /// A transfer is starting: the user is told which file is coming.
    pub fn on_transfer_starting(&self, state: &mut AppState, filename: String, total_size: u64, now: u64)
        requires
            old(state).wf(),
            old(state).notification_counter < u64::MAX,
        ensures
            final(state).wf(),
            notification_added(
                *old(state),
                *final(state),
                "Transfer Started"@,
                receiving_message(filename@),
                "\u{1F4E5}"@,
                now,
            ),
            *final(state) == (AppState {
                notifications: final(state).notifications,
                notification_counter: final(state).notification_counter,
                ..*old(state)
            }),
    {
        let mut msg = String::from_str("Receiving ");
        msg.append(filename.as_str());
        add_notification(state, "Transfer Started", msg.as_str(), "\u{1F4E5}", now);
    }

    /// A transfer completed: the user is told the file and its size, given
    /// in megabytes with one decimal as `size_mb`.
    pub fn on_transfer_completed(&self, state: &mut AppState, filename: String, size_mb: &str, now: u64)
        requires
            old(state).wf(),
            old(state).notification_counter < u64::MAX,
        ensures
            final(state).wf(),
            notification_added(
                *old(state),
                *final(state),
                "Transfer Complete"@,
                received_message(filename@, size_mb@),
                "\u{2705}"@,
                now,
            ),
            *final(state) == (AppState {
                notifications: final(state).notifications,
                notification_counter: final(state).notification_counter,
                ..*old(state)
            }),
    {
        let mut msg = filename.clone();
        msg.append(" received (");
        msg.append(size_mb);
        msg.append(" MB)");
        add_notification(state, "Transfer Complete", msg.as_str(), "\u{2705}", now);
    }

    /// A transfer failed: the user is told why.
    pub fn on_transfer_failed(&self, state: &mut AppState, error_msg: String, now: u64)
        requires
            old(state).wf(),
            old(state).notification_counter < u64::MAX,
        ensures
            final(state).wf(),
            notification_added(
                *old(state),
                *final(state),
                "Transfer Failed"@,
                error_msg@,
                "\u{274C}"@,
                now,
            ),
            *final(state) == (AppState {
                notifications: final(state).notifications,
                notification_counter: final(state).notification_counter,
                ..*old(state)
            }),
    {
        add_notification(state, "Transfer Failed", error_msg.as_str(), "\u{274C}", now);
    }

    /// A transfer was cancelled: the user is told.
    pub fn on_transfer_cancelled(&self, state: &mut AppState, now: u64)
        requires
            old(state).wf(),
            old(state).notification_counter < u64::MAX,
        ensures
            final(state).wf(),
            notification_added(
                *old(state),
                *final(state),
                "Transfer Cancelled"@,
                "The file transfer was cancelled"@,
                "\u{1F6AB}"@,
                now,
            ),
            *final(state) == (AppState {
                notifications: final(state).notifications,
                notification_counter: final(state).notification_counter,
                ..*old(state)
            }),
    {
        add_notification(state, "Transfer Cancelled", "The file transfer was cancelled", "\u{1F6AB}", now);
    }
}

/// Handles clipboard events for the desktop application.
pub struct AppClipboardCallback;

/// The part of a received text shown to the user: the text when it takes at
/// most 50 bytes, else its first 50 bytes followed by "...".
pub open spec fn clipboard_preview(text: Seq<char>) -> Seq<char> {
    if utf8_len(text) <= 50 {
        text
    } else {
        fitting_prefix(text, 50) + "..."@
    }
}

/// The 50th byte of a longer text ends a character, so that its first 50
/// bytes can be cut off.
pub open spec fn preview_cut_on_boundary(text: Seq<char>) -> bool {
    utf8_len(text) > 50 ==> utf8_len(fitting_prefix(text, 50)) == 50
}

/// "From <device>: <preview>".
pub open spec fn clipboard_received_message(from: Seq<char>, text: Seq<char>) -> Seq<char> {
    "From "@ + from + ": "@ + clipboard_preview(text)
}

fn preview_of(text: &String) -> (p: String)
    ensures
        p@ == clipboard_preview(text@),
{
    let cs = chars_of(text.as_str());
    let (k, _used) = fitting_prefix_len(cs.as_slice(), 50);
    if k == cs.len() {
        return text.clone();
    }
    let head = &cs[0..k];
    assert(head@ =~= fitting_prefix(text@, 50));
    let mut p = string_of(head);
    p.append("...");
    p
}

impl AppClipboardCallback {
    /// Text arrived from another device: it becomes the last known
    /// clipboard content and the user is told where it came from, with a
    /// preview. (Placing it on the system clipboard is the application's.)
    pub fn on_clipboard_received(
        &self,
        state: &mut AppState,
        text: String,
        from_device: String,
        now: u64,
    )
        requires
            old(state).wf(),
            old(state).notification_counter < u64::MAX,
            preview_cut_on_boundary(text@),
        ensures
            final(state).wf(),
            final(state).last_clipboard@ == text@,
            notification_added(
                *old(state),
                *final(state),
                "Clipboard Received"@,
                clipboard_received_message(from_device@, text@),
                "\u{1F4CB}"@,
                now,
            ),
            *final(state) == (AppState {
                last_clipboard: final(state).last_clipboard,
                notifications: final(state).notifications,
                notification_counter: final(state).notification_counter,
                ..*old(state)
            }),
    {
        let preview = preview_of(&text);
        state.last_clipboard = text;
        let mut msg = String::from_str("From ");
        msg.append(from_device.as_str());
        msg.append(": ");
        msg.append(preview.as_str());
        add_notification(state, "Clipboard Received", msg.as_str(), "\u{1F4CB}", now);
    }

    /// Sending the clipboard finished: on failure the user is told why
    /// ("Unknown error" when no reason came).
    pub fn on_clipboard_sent(
        &self,
        state: &mut AppState,
        success: bool,
        error_msg: Option<String>,
        now: u64,
    )
        requires
            old(state).wf(),
            old(state).notification_counter < u64::MAX,
        ensures
            final(state).wf(),
            success ==> *final(state) == *old(state),
            !success ==> notification_added(
                *old(state),
                *final(state),
                "Clipboard Failed"@,
                match error_msg {
                    Some(m) => m@,
                    None => "Unknown error"@,
                },
                "\u{26A0}\u{FE0F}"@,
                now,
            ),
            *final(state) == (AppState {
                notifications: final(state).notifications,
                notification_counter: final(state).notification_counter,
                ..*old(state)
            }),
    {
        if !success {
            let msg = match error_msg {
                Some(m) => m,
                None => String::from_str("Unknown error"),
            };
            add_notification(state, "Clipboard Failed", msg.as_str(), "\u{26A0}\u{FE0F}", now);
        }
    }
}

/// After a device is found, no other stored device has its address; and
/// if addresses were distinct before, they still are.
pub proof fn lemma_found_device_owns_address(
    m: Map<Seq<char>, DeviceInfo>,
    device: DiscoveredDevice,
)
    requires
        keyed_by_id(m),
    ensures
        ({
            let after = without_stale_address(m, device.id@, device.ip@).insert(
                device.id@,
                device_info_of(device),
            );
            &&& forall|k: Seq<char>|
                #[trigger] after.contains_key(k) && k != device.id@ ==> after[k].ip@ != device.ip@
            &&& ips_distinct(m) ==> ips_distinct(after)
        }),
{
    let after = without_stale_address(m, device.id@, device.ip@).insert(
        device.id@,
        device_info_of(device),
    );
    assert forall|k: Seq<char>| #[trigger] after.contains_key(k) && k != device.id@ implies after[k].ip@
        != device.ip@ by {
        assert(m.contains_key(k));
        assert(m[k].id@ == k);
    }
    if ips_distinct(m) {
        assert forall|a: Seq<char>, b: Seq<char>|
            #[trigger] after.contains_key(a) && #[trigger] after.contains_key(b) && a != b implies after[a].ip@
            != after[b].ip@ by {
            if a != device.id@ && b != device.id@ {
                assert(m.contains_key(a) && m.contains_key(b));
            }
        }
    }
}

} // verus!
