//! What the user's actions in the window change in the application state:
//! refusing work for offline devices, the course of a pairing, trusting or
//! refusing a device, the remote folder being browsed, thumbnails and
//! previews, and downloads. Carrying the actions out with the connection
//! core is the application's.

use vstd::prelude::*;
use crate::filesystem::{contains_chars, contains_text, lowercase, to_lowercase, FsEntry};
use crate::state::{add_notification, notification_added, AppState, DeviceInfo, PairingRequest};
use crate::strmap::StrMap;
use crate::text::chars_of;

verus! {

/// The address of a device that is only known offline.
pub open spec fn is_offline_ip(ip: Seq<char>) -> bool {
    ip == "0.0.0.0"@
}

/// Whether a transfer to `ip` is refused because the device is offline;
/// the user is told so.
pub fn refuse_offline_transfer(state: &mut AppState, ip: &str, now: u64) -> (refused: bool)
    requires
        old(state).wf(),
        old(state).notification_counter < u64::MAX,
    ensures
        final(state).wf(),
        refused == is_offline_ip(ip@),
        refused ==> notification_added(
            *old(state),
            *final(state),
            "Offline Mode"@,
            "Offline transfer not supported. Connect to same network."@,
            ""@,
            now,
        ),
        !refused ==> *final(state) == *old(state),
        *final(state) == (AppState {
            notifications: final(state).notifications,
            notification_counter: final(state).notification_counter,
            ..*old(state)
        }),
{
    if String::from_str(ip) == String::from_str("0.0.0.0") {
        add_notification(
            state,
            "Offline Mode",
            "Offline transfer not supported. Connect to same network.",
            "",
            now,
        );
        return true;
    }
    false
}

/// Whether pairing with `ip` is refused because the device is offline; the
/// user is told so.
pub fn refuse_offline_pairing(state: &mut AppState, ip: &str, now: u64) -> (refused: bool)
    requires
        old(state).wf(),
        old(state).notification_counter < u64::MAX,
    ensures
        final(state).wf(),
        refused == is_offline_ip(ip@),
        refused ==> notification_added(
            *old(state),
            *final(state),
            "Offline Mode"@,
            "Offline pairing not yet supported on Linux. Please connect devices to the same network or use Hotspot."@,
            ""@,
            now,
        ),
        !refused ==> *final(state) == *old(state),
        *final(state) == (AppState {
            notifications: final(state).notifications,
            notification_counter: final(state).notification_counter,
            ..*old(state)
        }),
{
    if String::from_str(ip) == String::from_str("0.0.0.0") {
        add_notification(
            state,
            "Offline Mode",
            "Offline pairing not yet supported on Linux. Please connect devices to the same network or use Hotspot.",
            "",
            now,
        );
        return true;
    }
    false
}

/// Whether a shown device is at the address and port.
pub open spec fn has_device_at(m: Map<Seq<char>, DeviceInfo>, ip: Seq<char>, port: u16) -> bool {
    exists|k: Seq<char>| #[trigger] m.contains_key(k) && m[k].ip@ == ip && m[k].port == port
}

fn device_at(devices: &StrMap<DeviceInfo>, ip: &str, port: u16) -> (r: Option<String>)
    requires
        devices.wf(),
    ensures
        match r {
            Some(id) => devices@.contains_key(id@) && devices@[id@].ip@ == ip@ && devices@[id@].port == port,
            None => !has_device_at(devices@, ip@, port),
        },
{
    let target = String::from_str(ip);
    let mut i: usize = 0;
    proof {
        devices.lemma_pairs();
    }
    while i < devices.len()
        invariant
            0 <= i <= devices.pairs().len(),
            devices.wf(),
            target@ == ip@,
            forall|k: int|
                0 <= k < i ==> !((#[trigger] devices.pairs()[k]).1.ip@ == ip@ && devices.pairs()[k].1.port
                    == port),
        decreases devices.pairs().len() - i,
    {
        let d = devices.value_at(i);
        if d.ip == target && d.port == port {
            let k = devices.key_at(i);
            proof {
                devices.lemma_pairs();
            }
            return Some(k.clone());
        }
        i = i + 1;
    }
    proof {
        devices.lemma_pairs();
        if has_device_at(devices@, ip@, port) {
            let k = choose|k: Seq<char>| #[trigger] devices@.contains_key(k) && devices@[k].ip@ == ip@
                && devices@[k].port == port;
            let j = choose|j: int| 0 <= j < devices.pairs().len() && #[trigger] devices.pairs()[j].0 == k;
            assert(devices@[devices.pairs()[j].0] == devices.pairs()[j].1);
        }
    }
    None
}

/// A pairing with the device at `ip`:`port` starts: the shown device there,
/// if any, awaits pairing, and its id is returned.
pub fn begin_pairing(state: &mut AppState, ip: &str, port: u16) -> (id: Option<String>)
    requires
        old(state).wf(),
    ensures
        final(state).wf(),
        match id {
            Some(d) => old(state).devices@.contains_key(d@) && old(state).devices@[d@].ip@ == ip@
                && old(state).devices@[d@].port == port && final(state).pending_pairings@ == old(
                state,
            ).pending_pairings@.insert(d@, ()),
            None => !has_device_at(old(state).devices@, ip@, port) && *final(state) == *old(state),
        },
        *final(state) == (AppState { pending_pairings: final(state).pending_pairings, ..*old(state) }),
{
    let id = device_at(&state.devices, ip, port);
    if let Some(d) = &id {
        state.pending_pairings.insert(d.clone(), ());
    }
    id
}

/// Whether a pairing failure is left unreported: the other side refused or
/// it was cancelled, which is shown elsewhere.
pub open spec fn failure_is_quiet(error: Seq<char>) -> bool {
    let l = lowercase(error);
    contains_text(l, "rejected"@) || contains_text(l, "cancelled"@) || contains_text(l, "canceled"@)
}

/// A pairing finished, with `Err` holding the failure's text: the device no
/// longer awaits pairing, and the user is told of success, or of a failure
/// that was not a refusal or a cancellation.
pub fn finish_pairing(state: &mut AppState, device_id: Option<String>, result: Result<(), String>, now: u64)
    requires
        old(state).wf(),
        old(state).notification_counter < u64::MAX,
    ensures
        final(state).wf(),
        final(state).pending_pairings@ == match device_id {
            Some(d) => old(state).pending_pairings@.remove(d@),
            None => old(state).pending_pairings@,
        },
        match result {
            Ok(()) => notification_added(
                *old(state),
                *final(state),
                "Paired"@,
                "Successfully paired with device"@,
                ""@,
                now,
            ),
            Err(e) => if failure_is_quiet(e@) {
                final(state).notifications == old(state).notifications
                    && final(state).notification_counter == old(state).notification_counter
            } else {
                notification_added(*old(state), *final(state), "Pairing Failed"@, e@, ""@, now)
            },
        },
        *final(state) == (AppState {
            pending_pairings: final(state).pending_pairings,
            notifications: final(state).notifications,
            notification_counter: final(state).notification_counter,
            ..*old(state)
        }),
{
    match &result {
        Ok(()) => {
            add_notification(state, "Paired", "Successfully paired with device", "", now);
        },
        Err(e) => {
            let lower = to_lowercase(e.as_str());
            let l = chars_of(lower.as_str());
            let a = chars_of("rejected");
            let b = chars_of("cancelled");
            let c = chars_of("canceled");
            let quiet = contains_chars(l.as_slice(), a.as_slice()) || contains_chars(
                l.as_slice(),
                b.as_slice(),
            ) || contains_chars(l.as_slice(), c.as_slice());
            if !quiet {
                add_notification(state, "Pairing Failed", e.as_str(), "", now);
            }
        },
    }
    if let Some(d) = &device_id {
        let _ = state.pending_pairings.remove(d.as_str());
    }
}

/// The waiting requests without those carrying the fingerprint.
pub open spec fn requests_without_fingerprint(rs: Seq<PairingRequest>, fingerprint: Seq<char>) -> Seq<PairingRequest> {
    rs.filter(|r: PairingRequest| r.fingerprint@ != fingerprint)
}

fn drop_requests_with(state: &mut AppState, fingerprint: &str)
    ensures
        final(state).pairing_requests@ == requests_without_fingerprint(
            old(state).pairing_requests@,
            fingerprint@,
        ),
        *final(state) == (AppState { pairing_requests: final(state).pairing_requests, ..*old(state) }),
{
    let ghost rs = state.pairing_requests@;
    let target = String::from_str(fingerprint);
    let mut kept: Vec<PairingRequest> = Vec::new();
    let mut i: usize = 0;
    assert(rs.take(0) =~= Seq::<PairingRequest>::empty());
    proof {
        reveal_with_fuel(Seq::filter, 1);
    }
    while i < state.pairing_requests.len()
        invariant
            0 <= i <= rs.len(),
            state.pairing_requests@ == rs,
            target@ == fingerprint@,
            kept@ == requests_without_fingerprint(rs.take(i as int), fingerprint@),
        decreases rs.len() - i,
    {
        assert(rs.take(i + 1).drop_last() =~= rs.take(i as int));
        assert(rs.take(i + 1).last() == rs[i as int]);
        proof {
            reveal_with_fuel(Seq::filter, 1);
        }
        let r = &state.pairing_requests[i];
        if !(r.fingerprint == target) {
            kept.push(
                PairingRequest {
                    fingerprint: r.fingerprint.clone(),
                    device_name: r.device_name.clone(),
                    device_id: r.device_id.clone(),
                },
            );
        }
        i = i + 1;
    }
    assert(rs.take(rs.len() as int) =~= rs);
    state.pairing_requests = kept;
}

/// The user trusted a device and the core accepted it: its requests stop
/// waiting, the shown device is trusted, and the user is told.
pub fn on_device_trusted(state: &mut AppState, fingerprint: &str, device_id: &str, now: u64)
    requires
        old(state).wf(),
        old(state).notification_counter < u64::MAX,
    ensures
        final(state).wf(),
        final(state).pairing_requests@ == requests_without_fingerprint(
            old(state).pairing_requests@,
            fingerprint@,
        ),
        old(state).devices@.contains_key(device_id@) ==> final(state).devices@ == old(
            state,
        ).devices@.insert(device_id@, DeviceInfo { is_trusted: true, ..old(state).devices@[device_id@] }),
        !old(state).devices@.contains_key(device_id@) ==> final(state).devices@ == old(state).devices@,
        notification_added(
            *old(state),
            *final(state),
            "Paired"@,
            "Device trusted successfully"@,
            ""@,
            now,
        ),
        *final(state) == (AppState {
            pairing_requests: final(state).pairing_requests,
            devices: final(state).devices,
            notifications: final(state).notifications,
            notification_counter: final(state).notification_counter,
            ..*old(state)
        }),
{
    drop_requests_with(state, fingerprint);
    let ghost before = state.devices@;
    if let Some(mut d) = state.devices.remove(device_id) {
        d.is_trusted = true;
        let id = d.id.clone();
        state.devices.insert(id, d);
        proof {
            let m = state.devices@;
            assert(before[device_id@].id@ == device_id@);
            assert(m =~= before.insert(device_id@, DeviceInfo { is_trusted: true, ..before[device_id@] }));
            assert forall|k: Seq<char>| #[trigger] m.contains_key(k) implies m[k].id@ == k by {
                if k != device_id@ {
                    assert(before.contains_key(k));
                }
            }
        }
    } else {
        assert(state.devices@ =~= before);
    }
    add_notification(state, "Paired", "Device trusted successfully", "", now);
}

/// The user refused a device's pairing request: its requests stop waiting.
pub fn on_device_refused(state: &mut AppState, fingerprint: &str)
    ensures
        final(state).pairing_requests@ == requests_without_fingerprint(
            old(state).pairing_requests@,
            fingerprint@,
        ),
        *final(state) == (AppState { pairing_requests: final(state).pairing_requests, ..*old(state) }),
{
    drop_requests_with(state, fingerprint);
}

/// The user cancelled a pairing: the device no longer awaits it.
pub fn cancel_pairing(state: &mut AppState, device_id: &str)
    requires
        old(state).wf(),
    ensures
        final(state).wf(),
        final(state).pending_pairings@ == old(state).pending_pairings@.remove(device_id@),
        *final(state) == (AppState { pending_pairings: final(state).pending_pairings, ..*old(state) }),
{
    let _ = state.pending_pairings.remove(device_id);
}

/// The listing of a remote folder arrived: it is shown, with its path.
pub fn on_remote_listing(state: &mut AppState, path: String, entries: Vec<FsEntry>, now: u64)
    ensures
        *final(state) == (AppState {
            remote_files: Some(entries),
            remote_path: path,
            remote_files_update: now,
            ..*old(state)
        }),
{
    state.remote_files = Some(entries);
    state.remote_path = path;
    state.remote_files_update = now;
}

/// Listing a remote folder failed: the user is told, and the browser stops
/// waiting.
pub fn on_remote_listing_failed(state: &mut AppState, error: &str, now: u64)
    requires
        old(state).wf(),
        old(state).notification_counter < u64::MAX,
    ensures
        final(state).wf(),
        notification_added(
            *old(state),
            *final(state),
            "File Browser"@,
            "Failed to list: "@ + error@,
            ""@,
            now,
        ),
        *final(state) == (AppState {
            notifications: final(state).notifications,
            notification_counter: final(state).notification_counter,
            remote_files_update: now,
            ..*old(state)
        }),
{
    let mut msg = String::from_str("Failed to list: ");
    msg.append(error);
    add_notification(state, "File Browser", msg.as_str(), "", now);
    state.remote_files_update = now;
}

/// A thumbnail arrived for a remote path: kept when it is not empty.
pub fn on_thumbnail(state: &mut AppState, path: String, data: Vec<u8>, now: u64)
    requires
        old(state).wf(),
    ensures
        final(state).wf(),
        data@.len() > 0 ==> final(state).thumbnails@ == old(state).thumbnails@.insert(path@, data)
            && final(state).thumbnails_update == now,
        data@.len() == 0 ==> *final(state) == *old(state),
        *final(state) == (AppState {
            thumbnails: final(state).thumbnails,
            thumbnails_update: final(state).thumbnails_update,
            ..*old(state)
        }),
{
    if data.len() > 0 {
        state.thumbnails.insert(path, data);
        state.thumbnails_update = now;
    }
}

/// The preview is closed.
pub fn close_preview(state: &mut AppState)
    ensures
        *final(state) == (AppState { preview_data: None, ..*old(state) }),
{
    state.preview_data = None;
}

/// A download of `filename` starts: the user is told.
pub fn on_download_started(state: &mut AppState, filename: &str, now: u64)
    requires
        old(state).wf(),
        old(state).notification_counter < u64::MAX,
    ensures
        final(state).wf(),
        notification_added(
            *old(state),
            *final(state),
            "Download"@,
            "Downloading "@ + filename@ + "..."@,
            ""@,
            now,
        ),
        *final(state) == (AppState {
            notifications: final(state).notifications,
            notification_counter: final(state).notification_counter,
            ..*old(state)
        }),
{
    let mut msg = String::from_str("Downloading ");
    msg.append(filename);
    msg.append("...");
    add_notification(state, "Download", msg.as_str(), "", now);
}

/// A download finished, with `Err` holding the failure's text: the user is
/// told.
pub fn on_download_finished(state: &mut AppState, filename: &str, result: Result<(), String>, now: u64)
    requires
        old(state).wf(),
        old(state).notification_counter < u64::MAX,
    ensures
        final(state).wf(),
        match result {
            Ok(()) => notification_added(
                *old(state),
                *final(state),
                "Download"@,
                "Downloaded "@ + filename@,
                ""@,
                now,
            ),
            Err(e) => notification_added(*old(state), *final(state), "Download Failed"@, e@, ""@, now),
        },
        *final(state) == (AppState {
            notifications: final(state).notifications,
            notification_counter: final(state).notification_counter,
            ..*old(state)
        }),
{
    match &result {
        Ok(()) => {
            let mut msg = String::from_str("Downloaded ");
            msg.append(filename);
            add_notification(state, "Download", msg.as_str(), "", now);
        },
        Err(e) => {
            add_notification(state, "Download Failed", e.as_str(), "", now);
        },
    }
}


/// A pairing attempt leaves nothing waiting: after it began and finished
/// for the same device, that device awaits no pairing, and the others are
/// as before.
pub proof fn lemma_pairing_attempt_leaves_nothing_pending(pending: Map<Seq<char>, ()>, device_id: Seq<char>)
    ensures
        pending.insert(device_id, ()).remove(device_id) == pending.remove(device_id),
{
    assert(pending.insert(device_id, ()).remove(device_id) =~= pending.remove(device_id));
}

} // verus!
