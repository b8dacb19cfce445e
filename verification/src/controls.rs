//! What the settings and update controls do besides calling the core:
//! which remembered devices are announced again after the network came
//! back, what the user is told when a folder or the start-at-login switch
//! was changed, what an update check found, and what installing an update
//! does.

use vstd::prelude::*;
use crate::events::{found_info, offline_ip};
use crate::ffi::{DiscoveredDevice, UpdateInfo};
use crate::settings::{AppSettings, SavedDeviceInfo};
use crate::state::{add_notification, notification_added, AppState, DeviceInfo};
use crate::strmap::StrMap;

verus! {

/// The remembered devices announced again to the core when the network
/// adapter came back: all but those only known offline, in the settings'
/// order.
pub open spec fn reinjected_devices(pairs: Seq<(Seq<char>, SavedDeviceInfo)>) -> Seq<(Seq<char>, SavedDeviceInfo)>
    decreases pairs.len(),
{
    if pairs.len() == 0 {
        Seq::empty()
    } else {
        let rest = reinjected_devices(pairs.drop_last());
        if pairs.last().1.ip@ == "0.0.0.0"@ {
            rest
        } else {
            rest.push(pairs.last())
        }
    }
}

fn copy_saved(d: &SavedDeviceInfo) -> (r: SavedDeviceInfo)
    ensures
        r == *d,
{
    SavedDeviceInfo { name: d.name.clone(), ip: d.ip.clone(), port: d.port, device_type: d.device_type.clone() }
}

/// The remembered devices to announce again, with their ids.
pub fn devices_to_reinject(settings: &AppSettings) -> (r: Vec<(String, SavedDeviceInfo)>)
    ensures
        r@.map_values(|e: (String, SavedDeviceInfo)| (e.0@, e.1)) == reinjected_devices(
            settings.saved_devices.pairs(),
        ),
{
    let saved: &StrMap<SavedDeviceInfo> = &settings.saved_devices;
    let ghost pairs = saved.pairs();
    let mut r: Vec<(String, SavedDeviceInfo)> = Vec::new();
    let mut i: usize = 0;
    while i < saved.len()
        invariant
            0 <= i <= pairs.len(),
            pairs == saved.pairs(),
            r@.map_values(|e: (String, SavedDeviceInfo)| (e.0@, e.1)) == reinjected_devices(pairs.take(i as int)),
        decreases pairs.len() - i,
    {
        assert(pairs.take(i + 1).drop_last() =~= pairs.take(i as int));
        assert(pairs.take(i + 1).last() == pairs[i as int]);
        let d = saved.value_at(i);
        if d.ip != String::from_str("0.0.0.0") {
            let k = saved.key_at(i).clone();
            r.push((k, copy_saved(d)));
            assert(r@.map_values(|e: (String, SavedDeviceInfo)| (e.0@, e.1)) =~= reinjected_devices(
                pairs.take(i as int),
            ).push(pairs[i as int]));
        }
        i = i + 1;
    }
    assert(pairs.take(pairs.len() as int) =~= pairs);
    r
}

/// A new download folder was handed to the core, which accepted it or
/// gave the reason (`Err`): the user is told.
pub fn on_download_directory_set(state: &mut AppState, path: &str, result: Result<(), String>, now: u64)
    requires
        old(state).wf(),
        old(state).notification_counter < u64::MAX,
    ensures
        final(state).wf(),
        match result {
            Ok(()) => notification_added(
                *old(state),
                *final(state),
                "Settings"@,
                "Download directory set to "@ + path@,
                ""@,
                now,
            ),
            Err(e) => notification_added(
                *old(state),
                *final(state),
                "Error"@,
                "Failed to set download directory: "@ + e@,
                ""@,
                now,
            ),
        },
        *final(state) == (AppState {
            notifications: final(state).notifications,
            notification_counter: final(state).notification_counter,
            ..*old(state)
        }),
{
    match &result {
        Ok(()) => {
            let mut m = String::from_str("Download directory set to ");
            m.append(path);
            add_notification(state, "Settings", m.as_str(), "", now);
        },
        Err(e) => {
            let mut m = String::from_str("Failed to set download directory: ");
            m.append(e.as_str());
            add_notification(state, "Error", m.as_str(), "", now);
        },
    }
}

/// A new shared folder is served to peers: the user is told.
pub fn on_shared_folder_set(state: &mut AppState, path: &str, now: u64)
    requires
        old(state).wf(),
        old(state).notification_counter < u64::MAX,
    ensures
        final(state).wf(),
        notification_added(*old(state), *final(state), "Settings"@, "Shared folder set to "@ + path@, ""@, now),
        *final(state) == (AppState {
            notifications: final(state).notifications,
            notification_counter: final(state).notification_counter,
            ..*old(state)
        }),
{
    let mut m = String::from_str("Shared folder set to ");
    m.append(path);
    add_notification(state, "Settings", m.as_str(), "", now);
}

/// What the user is told after asking to start (or not) at login: the
/// switch was written and reads back as asked, reads back otherwise, or
/// could not be written (`Err` with the reason).
pub open spec fn autostart_message(requested: bool, outcome: Result<bool, Seq<char>>) -> Seq<char> {
    match outcome {
        Ok(actual) => if actual == requested {
            if requested {
                "Connected will start automatically when you log in"@
            } else {
                "Connected will no longer start automatically"@
            }
        } else {
            "Autostart state could not be verified. Check your system startup settings."@
        },
        Err(e) => "Failed to update startup setting: "@ + e,
    }
}

/// The start-at-login switch was set as `requested`; `outcome` is the state
/// read back afterwards, or the reason it could not be written. The user is
/// told under "Settings".
pub fn on_autostart_set(state: &mut AppState, requested: bool, outcome: Result<bool, String>, now: u64)
    requires
        old(state).wf(),
        old(state).notification_counter < u64::MAX,
    ensures
        final(state).wf(),
        notification_added(
            *old(state),
            *final(state),
            "Settings"@,
            autostart_message(
                requested,
                match outcome {
                    Ok(a) => Ok(a),
                    Err(e) => Err(e@),
                },
            ),
            ""@,
            now,
        ),
        *final(state) == (AppState {
            notifications: final(state).notifications,
            notification_counter: final(state).notification_counter,
            ..*old(state)
        }),
{
    match &outcome {
        Ok(actual) => {
            if *actual == requested {
                if requested {
                    add_notification(
                        state,
                        "Settings",
                        "Connected will start automatically when you log in",
                        "",
                        now,
                    );
                } else {
                    add_notification(state, "Settings", "Connected will no longer start automatically", "", now);
                }
            } else {
                add_notification(
                    state,
                    "Settings",
                    "Autostart state could not be verified. Check your system startup settings.",
                    "",
                    now,
                );
            }
        },
        Err(e) => {
            let mut m = String::from_str("Failed to update startup setting: ");
            m.append(e.as_str());
            add_notification(state, "Settings", m.as_str(), "", now);
        },
    }
}

/// An update check finished, with what it found or why it failed: the user
/// is told whether a newer version is out.
pub fn on_update_checked(state: &mut AppState, result: &Result<UpdateInfo, String>, now: u64)
    requires
        old(state).wf(),
        old(state).notification_counter < u64::MAX,
    ensures
        final(state).wf(),
        match result {
            Ok(info) => if info.has_update {
                notification_added(
                    *old(state),
                    *final(state),
                    "Update Available"@,
                    "Version "@ + info.latest_version@ + " is available"@,
                    ""@,
                    now,
                )
            } else {
                notification_added(*old(state), *final(state), "Updates"@, "You are up to date"@, ""@, now)
            },
            Err(e) => notification_added(*old(state), *final(state), "Update Check Failed"@, e@, ""@, now),
        },
        *final(state) == (AppState {
            notifications: final(state).notifications,
            notification_counter: final(state).notification_counter,
            ..*old(state)
        }),
{
    match result {
        Ok(info) => {
            if info.has_update {
                let mut m = String::from_str("Version ");
                m.append(info.latest_version.as_str());
                m.append(" is available");
                add_notification(state, "Update Available", m.as_str(), "", now);
            } else {
                add_notification(state, "Updates", "You are up to date", "", now);
            }
        },
        Err(e) => {
            add_notification(state, "Update Check Failed", e.as_str(), "", now);
        },
    }
}

/// What installing an update does.
#[derive(Clone, Debug)]
pub enum UpdateStep {
    /// No update was found before: nothing.
    Nothing,
    /// The update has no download address: the user is told.
    NoDownload,
    /// The package installs itself from the address: the user is told it
    /// downloads.
    Install { url: String },
    /// The address is opened for the user.
    OpenUrl { url: String },
}

/// Installing the update last found: nothing when none was found; when it
/// has a download address, the package installs itself from it when it can
/// (`self_installing`), else the address is opened; the user is told when
/// there is no address, and when the download starts.
pub fn perform_update(state: &mut AppState, info: &Option<UpdateInfo>, self_installing: bool, now: u64) -> (s:
    UpdateStep)
    requires
        old(state).wf(),
        old(state).notification_counter < u64::MAX,
    ensures
        final(state).wf(),
        match info {
            None => s is Nothing && *final(state) == *old(state),
            Some(i) => match i.download_url {
                None => s is NoDownload && notification_added(
                    *old(state),
                    *final(state),
                    "Update"@,
                    "No download URL found"@,
                    ""@,
                    now,
                ),
                Some(u) => if self_installing {
                    s matches UpdateStep::Install { url } && url@ == u@ && notification_added(
                        *old(state),
                        *final(state),
                        "Updates"@,
                        "Downloading update…"@,
                        ""@,
                        now,
                    )
                } else {
                    s matches UpdateStep::OpenUrl { url } && url@ == u@ && *final(state) == *old(state)
                },
            },
        },
        *final(state) == (AppState {
            notifications: final(state).notifications,
            notification_counter: final(state).notification_counter,
            ..*old(state)
        }),
{
    match info {
        None => UpdateStep::Nothing,
        Some(i) => match &i.download_url {
            None => {
                add_notification(state, "Update", "No download URL found", "", now);
                UpdateStep::NoDownload
            },
            Some(u) => {
                if self_installing {
                    add_notification(state, "Updates", "Downloading update…", "", now);
                    UpdateStep::Install { url: u.clone() }
                } else {
                    UpdateStep::OpenUrl { url: u.clone() }
                }
            },
        },
    }
}

/// What starting up does with the start-at-login entry.
#[derive(Clone, Copy, Debug, PartialEq, Eq, Structural)]
pub struct AutostartStartup {
    /// The entry is written again, to point at this executable.
    pub refresh_entry: bool,
    /// The setting to store, when it disagrees with the system.
    pub store_setting: Option<bool>,
}

/// At start-up, with the entry present on the system (`actual`) and the
/// stored setting (`saved`): an entry that is wanted and present is
/// written again, and the stored setting follows the system when they
/// disagree.
pub fn autostart_on_startup(actual: bool, saved: bool) -> (r: AutostartStartup)
    ensures
        r.refresh_entry == (actual && saved),
        r.store_setting == (if actual != saved {
            Some(actual)
        } else {
            None
        }),
{
    AutostartStartup {
        refresh_entry: actual && saved,
        store_setting: if actual != saved {
            Some(actual)
        } else {
            None
        },
    }
}

/// The name this computer announces itself under: the one chosen in the
/// settings, else the host's name.
pub fn startup_device_name(settings: &AppSettings, host_name: String) -> (n: String)
    ensures
        n@ == (match settings.device_name {
            Some(d) => d@,
            None => host_name@,
        }),
{
    match &settings.device_name {
        Some(d) => d.clone(),
        None => host_name,
    }
}

/// The devices shown after the discovered ones (each with the core's trust)
/// are stored, in order.
pub open spec fn devices_after_discovery(
    m: Map<Seq<char>, DeviceInfo>,
    ds: Seq<(DiscoveredDevice, bool)>,
) -> Map<Seq<char>, DeviceInfo>
    decreases ds.len(),
{
    if ds.len() == 0 {
        m
    } else {
        devices_after_discovery(m, ds.drop_last()).insert(ds.last().0.id@, found_info(ds.last().0, ds.last().1))
    }
}

/// The pairings still awaited after the discovered devices are stored: a
/// trusted one no longer awaits pairing.
pub open spec fn pending_after_discovery(p: Map<Seq<char>, ()>, ds: Seq<(DiscoveredDevice, bool)>) -> Map<
    Seq<char>,
    (),
>
    decreases ds.len(),
{
    if ds.len() == 0 {
        p
    } else {
        let q = pending_after_discovery(p, ds.drop_last());
        if ds.last().1 {
            q.remove(ds.last().0.id@)
        } else {
            q
        }
    }
}

/// The ids of a list of strings.
pub open spec fn id_views(v: Seq<String>) -> Seq<Seq<char>> {
    v.map_values(|s: String| s@)
}

/// Whether the remembered device `k` is shown as offline at start-up: it
/// is trusted, was not discovered, and was not itself remembered offline.
pub open spec fn restored_offline(
    saved: Map<Seq<char>, SavedDeviceInfo>,
    shown: Map<Seq<char>, DeviceInfo>,
    trusted: Seq<Seq<char>>,
    k: Seq<char>,
) -> bool {
    &&& saved.contains_key(k)
    &&& !shown.contains_key(k)
    &&& saved[k].ip@ != offline_ip()
    &&& trusted.contains(k)
}

/// `d` is the offline entry for the remembered device `k`: its saved name,
/// port and type, the offline address, trusted and not awaiting pairing.
pub open spec fn offline_entry(d: DeviceInfo, k: Seq<char>, info: SavedDeviceInfo) -> bool {
    &&& d.id@ == k
    &&& d.name == info.name
    &&& d.ip@ == offline_ip()
    &&& d.port == info.port
    &&& d.device_type == info.device_type
    &&& d.is_trusted
    &&& !d.is_pending
}

fn contains_id(v: &Vec<String>, k: &String) -> (b: bool)
    ensures
        b == id_views(v@).contains(k@),
{
    let mut i: usize = 0;
    while i < v.len()
        invariant
            0 <= i <= v@.len(),
            forall|j: int| 0 <= j < i ==> v@[j]@ != k@,
        decreases v@.len() - i,
    {
        if v[i] == *k {
            assert(id_views(v@)[i as int] == k@);
            return true;
        }
        i = i + 1;
    }
    proof {
        if id_views(v@).contains(k@) {
            let j = choose|j: int| 0 <= j < id_views(v@).len() && id_views(v@)[j] == k@;
            assert(v@[j]@ == k@);
        }
    }
    false
}

/// At start-up, the devices the core already discovered are stored (each
/// with the core's trust; a trusted one no longer awaits pairing), and
/// every remembered device that the core trusts (`trusted_saved`), that was
/// not discovered and that was not remembered offline is shown offline.
pub fn restore_devices_at_startup(
    state: &mut AppState,
    discovered: Vec<(DiscoveredDevice, bool)>,
    trusted_saved: Vec<String>,
)
    requires
        old(state).wf(),
    ensures
        final(state).wf(),
        final(state).pending_pairings@ == pending_after_discovery(old(state).pending_pairings@, discovered@),
        forall|k: Seq<char>|
            #[trigger] final(state).devices@.contains_key(k) <==> devices_after_discovery(
                old(state).devices@,
                discovered@,
            ).contains_key(k) || restored_offline(
                old(state).settings.saved_devices@,
                devices_after_discovery(old(state).devices@, discovered@),
                id_views(trusted_saved@),
                k,
            ),
        forall|k: Seq<char>|
            #[trigger] devices_after_discovery(old(state).devices@, discovered@).contains_key(k)
                ==> final(state).devices@[k] == devices_after_discovery(old(state).devices@, discovered@)[k],
        forall|k: Seq<char>|
            #[trigger] restored_offline(
                old(state).settings.saved_devices@,
                devices_after_discovery(old(state).devices@, discovered@),
                id_views(trusted_saved@),
                k,
            ) ==> offline_entry(final(state).devices@[k], k, old(state).settings.saved_devices@[k]),
        *final(state) == (AppState {
            devices: final(state).devices,
            pending_pairings: final(state).pending_pairings,
            ..*old(state)
        }),
{
    let ghost ds = discovered@;
    let ghost s0 = *state;
    let mut i: usize = 0;
    while i < discovered.len()
        invariant
            0 <= i <= ds.len(),
            ds == discovered@,
            state.wf(),
            state.devices@ == devices_after_discovery(s0.devices@, ds.take(i as int)),
            state.pending_pairings@ == pending_after_discovery(s0.pending_pairings@, ds.take(i as int)),
            *state == (AppState { devices: state.devices, pending_pairings: state.pending_pairings, ..s0 }),
        decreases ds.len() - i,
    {
        assert(ds.take(i + 1).drop_last() =~= ds.take(i as int));
        assert(ds.take(i + 1).last() == ds[i as int]);
        let (d, trusted) = &discovered[i];
        let info = DeviceInfo {
            id: d.id.clone(),
            name: d.name.clone(),
            ip: d.ip.clone(),
            port: d.port,
            device_type: d.device_type.clone(),
            is_trusted: *trusted,
            is_pending: false,
        };
        if *trusted {
            let _ = state.pending_pairings.remove(d.id.as_str());
        }
        let ghost before = state.devices@;
        state.devices.insert(d.id.clone(), info);
        proof {
            let m = state.devices@;
            assert forall|k: Seq<char>| #[trigger] m.contains_key(k) implies m[k].id@ == k by {
                if k != d.id@ {
                    assert(before.contains_key(k));
                }
            }
        }
        i = i + 1;
    }
    assert(ds.take(ds.len() as int) =~= ds);
    let ghost shown = state.devices@;
    let ghost s1 = *state;
    let ghost tv = id_views(trusted_saved@);
    let ghost saved = state.settings.saved_devices@;
    proof {
        state.settings.saved_devices.lemma_pairs();
    }
    let mut j: usize = 0;
    while j < state.settings.saved_devices.len()
        invariant
            0 <= j <= state.settings.saved_devices.pairs().len(),
            state.wf(),
            saved == state.settings.saved_devices@,
            tv == id_views(trusted_saved@),
            *state == (AppState { devices: state.devices, ..s1 }),
            forall|p: int, q: int|
                0 <= p < state.settings.saved_devices.pairs().len() && 0 <= q
                    < state.settings.saved_devices.pairs().len() && p != q
                    ==> #[trigger] state.settings.saved_devices.pairs()[p].0
                    != #[trigger] state.settings.saved_devices.pairs()[q].0,
            forall|p: int|
                0 <= p < state.settings.saved_devices.pairs().len() ==> saved.contains_key(
                    #[trigger] state.settings.saved_devices.pairs()[p].0,
                ) && saved[state.settings.saved_devices.pairs()[p].0]
                    == state.settings.saved_devices.pairs()[p].1,
            forall|k: Seq<char>|
                #[trigger] state.devices@.contains_key(k) <==> shown.contains_key(k) || (restored_offline(
                    saved,
                    shown,
                    tv,
                    k,
                ) && exists|p: int| 0 <= p < j && #[trigger] state.settings.saved_devices.pairs()[p].0 == k),
            forall|k: Seq<char>| #[trigger] shown.contains_key(k) ==> state.devices@[k] == shown[k],
            forall|k: Seq<char>|
                #[trigger] state.devices@.contains_key(k) && !shown.contains_key(k) ==> offline_entry(
                    state.devices@[k],
                    k,
                    saved[k],
                ),
        decreases state.settings.saved_devices.pairs().len() - j,
    {
        let ghost kj = state.settings.saved_devices.pairs()[j as int].0;
        let key = state.settings.saved_devices.key_at(j).clone();
        let info = state.settings.saved_devices.value_at(j);
        let present = state.devices.contains_key(key.as_str());
        assert(present == shown.contains_key(kj)) by {
            if state.devices@.contains_key(kj) && !shown.contains_key(kj) {
                let p = choose|p: int| 0 <= p < j && #[trigger] state.settings.saved_devices.pairs()[p].0 == kj;
                assert(p != j);
            }
        }
        let restore = !present && !(info.ip == String::from_str("0.0.0.0")) && contains_id(&trusted_saved, &key);
        assert(restore == restored_offline(saved, shown, tv, kj));
        if restore {
            let entry = DeviceInfo {
                id: key.clone(),
                name: info.name.clone(),
                ip: String::from_str("0.0.0.0"),
                port: info.port,
                device_type: info.device_type.clone(),
                is_trusted: true,
                is_pending: false,
            };
            let ghost before = state.devices@;
            state.devices.insert(key, entry);
            proof {
                let m = state.devices@;
                assert forall|k: Seq<char>| #[trigger] m.contains_key(k) implies m[k].id@ == k by {
                    if k != kj {
                        assert(before.contains_key(k));
                    }
                }
            }
        }
        proof {
            assert forall|k: Seq<char>|
                #[trigger] state.devices@.contains_key(k) <==> shown.contains_key(k) || (restored_offline(
                    saved,
                    shown,
                    tv,
                    k,
                ) && exists|p: int| 0 <= p < j + 1 && #[trigger] state.settings.saved_devices.pairs()[p].0 == k) by {
                if k == kj {
                    assert(state.settings.saved_devices.pairs()[j as int].0 == k);
                }
            }
        }
        j = j + 1;
    }
    proof {
        assert forall|k: Seq<char>| #[trigger] restored_offline(saved, shown, tv, k) implies state.devices@.contains_key(k) by {
            let p = choose|p: int| 0 <= p < state.settings.saved_devices.pairs().len() && #[trigger] state.settings.saved_devices.pairs()[p].0 == k;
        }
    }
}

} // verus!
