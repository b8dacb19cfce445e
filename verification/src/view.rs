//! What the window shows of the application state, polled twice a second:
//! the devices with their pairing marks, the notifications still on
//! screen, the waiting file offers newest first, and the media summary.

use vstd::prelude::*;
use crate::settings::AppSettings;
use crate::ffi::FfiSmsMessage;
use crate::state::{PhoneSyncState, add_notification, notification_added, opt_view, set_phone_data_device, AppState, DeviceInfo, FileTransferRequest, Notification, RemoteMedia};
use crate::text::{chars_of, dec, decimal_string, trim_spec, skip_ws, skip_ws_back};
use crate::filesystem::{contains_chars, contains_text, lowercase, to_lowercase};

verus! {

/// How long a notification stays on screen, in milliseconds.
pub const NOTIFICATION_LIFETIME_MS: u64 = 5000;

/// A device as listed: marked pending when a pairing with it is under way.
pub open spec fn listed_device(d: DeviceInfo, pending: Map<Seq<char>, ()>) -> DeviceInfo {
    if pending.contains_key(d.id@) {
        DeviceInfo { is_pending: true, ..d }
    } else {
        d
    }
}

fn copy_device(d: &DeviceInfo) -> (r: DeviceInfo)
    ensures
        r == *d,
{
    DeviceInfo {
        id: d.id.clone(),
        name: d.name.clone(),
        ip: d.ip.clone(),
        port: d.port,
        device_type: d.device_type.clone(),
        is_trusted: d.is_trusted,
        is_pending: d.is_pending,
    }
}

/// The devices as listed, one per stored device.
pub fn device_list_view(state: &AppState) -> (r: Vec<DeviceInfo>)
    requires
        state.wf(),
    ensures
        r@.len() == state.devices@.dom().len(),
        forall|i: int| 0 <= i < r@.len() ==> state.devices@.contains_key(#[trigger] r@[i].id@)
            && r@[i] == listed_device(state.devices@[r@[i].id@], state.pending_pairings@),
        forall|k: Seq<char>| #[trigger] state.devices@.contains_key(k) ==> exists|i: int|
            0 <= i < r@.len() && #[trigger] r@[i].id@ == k,
{
    let devices = &state.devices;
    proof {
        devices.lemma_pairs();
        devices.lemma_len();
    }
    let mut r: Vec<DeviceInfo> = Vec::new();
    let mut i: usize = 0;
    while i < devices.len()
        invariant
            0 <= i <= devices.pairs().len(),
            devices == &state.devices,
            state.wf(),
            r@.len() == i,
            forall|j: int| 0 <= j < i ==> (#[trigger] r@[j]).id@ == devices.pairs()[j].0
                && r@[j] == listed_device(devices.pairs()[j].1, state.pending_pairings@),
        decreases devices.pairs().len() - i,
    {
        proof {
            devices.lemma_pairs();
        }
        let d = devices.value_at(i);
        let mut shown = copy_device(d);
        assert(state.devices@.contains_key(devices.pairs()[i as int].0));
        assert(d.id@ == devices.pairs()[i as int].0);
        if state.pending_pairings.contains_key(d.id.as_str()) {
            shown.is_pending = true;
        }
        r.push(shown);
        i = i + 1;
    }
    proof {
        devices.lemma_pairs();
        devices.lemma_len();
        assert forall|k: Seq<char>| #[trigger] state.devices@.contains_key(k) implies exists|i: int|
            0 <= i < r@.len() && #[trigger] r@[i].id@ == k by {
            let j = choose|j: int| 0 <= j < devices.pairs().len() && #[trigger] devices.pairs()[j].0 == k;
            assert(r@[j].id@ == k);
        }
    }
    r
}

/// Whether a notification made at `t` is still on screen at `now`.
pub open spec fn on_screen(t: u64, now: u64) -> bool {
    (if now >= t {
        now - t
    } else {
        0
    }) < NOTIFICATION_LIFETIME_MS
}

/// The notifications still on screen at `now`, in order.
pub open spec fn notifications_on_screen(ns: Seq<Notification>, now: u64) -> Seq<Notification> {
    ns.filter(|n: Notification| on_screen(n.timestamp, now))
}

/// Drops the notifications shown for five seconds or more.
pub fn expire_notifications(state: &mut AppState, now: u64)
    requires
        old(state).wf(),
    ensures
        final(state).wf(),
        final(state).notifications@ == notifications_on_screen(old(state).notifications@, now),
        *final(state) == (AppState { notifications: final(state).notifications, ..*old(state) }),
{
    let ghost ns = state.notifications@;
    let mut kept: Vec<Notification> = Vec::new();
    let mut i: usize = 0;
    assert(ns.take(0) =~= Seq::<Notification>::empty());
    proof {
        reveal_with_fuel(Seq::filter, 1);
    }
    while i < state.notifications.len()
        invariant
            0 <= i <= ns.len(),
            state.notifications@ == ns,
            kept@ == notifications_on_screen(ns.take(i as int), now),
        decreases ns.len() - i,
    {
        assert(ns.take(i + 1).drop_last() =~= ns.take(i as int));
        assert(ns.take(i + 1).last() == ns[i as int]);
        proof {
            reveal_with_fuel(Seq::filter, 1);
        }
        let n = &state.notifications[i];
        let age: u64 = if now >= n.timestamp {
            now - n.timestamp
        } else {
            0
        };
        if age < NOTIFICATION_LIFETIME_MS {
            kept.push(
                Notification {
                    id: n.id,
                    title: n.title.clone(),
                    message: n.message.clone(),
                    icon: n.icon.clone(),
                    timestamp: n.timestamp,
                },
            );
        }
        i = i + 1;
    }
    assert(ns.take(ns.len() as int) =~= ns);
    proof {
        lemma_filter_keeps_order(ns, now);
    }
    state.notifications = kept;
}

proof fn lemma_filter_keeps_order(ns: Seq<Notification>, now: u64)
    requires
        forall|i: int, j: int| 0 <= i < j < ns.len() ==> #[trigger] ns[i].id < #[trigger] ns[j].id,
    ensures
        forall|i: int, j: int|
            0 <= i < j < notifications_on_screen(ns, now).len() ==> #[trigger] notifications_on_screen(ns, now)[i].id
                < #[trigger] notifications_on_screen(ns, now)[j].id,
        notifications_on_screen(ns, now).len() <= ns.len(),
        forall|i: int| 0 <= i < notifications_on_screen(ns, now).len() ==> ns.contains(#[trigger] notifications_on_screen(ns, now)[i]),
    decreases ns.len(),
{
    reveal_with_fuel(Seq::filter, 1);
    if ns.len() > 0 {
        let t = ns.drop_last();
        assert forall|i: int, j: int| 0 <= i < j < t.len() implies #[trigger] t[i].id < #[trigger] t[j].id by {
            assert(t[i] == ns[i] && t[j] == ns[j]);
        }
        lemma_filter_keeps_order(t, now);
        let f = notifications_on_screen(t, now);
        assert forall|i: int| 0 <= i < f.len() implies (#[trigger] f[i]).id < ns.last().id by {
            assert(t.contains(f[i]));
            let k = choose|k: int| 0 <= k < t.len() && t[k] == f[i];
            assert(ns[k] == t[k]);
        }
        assert forall|i: int| 0 <= i < f.len() implies ns.contains(#[trigger] f[i]) by {
            assert(t.contains(f[i]));
            let k = choose|k: int| 0 <= k < t.len() && t[k] == f[i];
            assert(ns[k] == t[k]);
        }
        if on_screen(ns.last().timestamp, now) {
            assert(ns.contains(ns.last())) by {
                assert(ns[ns.len() - 1] == ns.last());
            }
        }
    }
}


/// `x` placed into `s` after every trailing offer that is not older.
pub open spec fn insert_request(s: Seq<FileTransferRequest>, x: FileTransferRequest) -> Seq<FileTransferRequest>
    decreases s.len(),
{
    if s.len() == 0 {
        seq![x]
    } else if s.last().timestamp < x.timestamp {
        insert_request(s.drop_last(), x).push(s.last())
    } else {
        s.push(x)
    }
}

/// The offers newest first, stable among offers of the same time.
pub open spec fn requests_newest_first_spec(s: Seq<FileTransferRequest>) -> Seq<FileTransferRequest>
    decreases s.len(),
{
    if s.len() == 0 {
        seq![]
    } else {
        insert_request(requests_newest_first_spec(s.drop_last()), s.last())
    }
}

/// No offer is older than a later one.
pub open spec fn requests_newest_first(s: Seq<FileTransferRequest>) -> bool {
    forall|i: int, j: int| 0 <= i < j < s.len() ==> #[trigger] s[i].timestamp >= #[trigger] s[j].timestamp
}

proof fn lemma_insert_request(s: Seq<FileTransferRequest>, x: FileTransferRequest)
    requires
        requests_newest_first(s),
    ensures
        requests_newest_first(insert_request(s, x)),
        insert_request(s, x).to_multiset() == s.to_multiset().insert(x),
    decreases s.len(),
{
    broadcast use vstd::seq_lib::group_to_multiset_ensures;

    let r = insert_request(s, x);
    if s.len() == 0 {
        assert(s.push(x) == seq![x]);
    } else if s.last().timestamp < x.timestamp {
        let t = s.drop_last();
        let l = s.last();
        assert(requests_newest_first(t)) by {
            assert forall|i: int, j: int| 0 <= i < j < t.len() implies #[trigger] t[i].timestamp
                >= #[trigger] t[j].timestamp by {
                assert(t[i] == s[i] && t[j] == s[j]);
            }
        }
        lemma_insert_request(t, x);
        let u = insert_request(t, x);
        assert(s == t.push(l));
        assert forall|k: int| 0 <= k < u.len() implies (#[trigger] u[k]).timestamp >= l.timestamp by {
            assert(u.to_multiset().count(u[k]) > 0);
            assert(t.to_multiset().insert(x).count(u[k]) > 0);
            if u[k] != x {
                assert(t.to_multiset().count(u[k]) > 0);
                assert(t.contains(u[k]));
                let m = choose|m: int| 0 <= m < t.len() && t[m] == u[k];
                assert(s[m] == t[m] && s[s.len() - 1] == l);
            }
        }
        assert forall|i: int, j: int| 0 <= i < j < r.len() implies #[trigger] r[i].timestamp
            >= #[trigger] r[j].timestamp by {
            assert(r == u.push(l));
            if j < u.len() {
                assert(r[i] == u[i] && r[j] == u[j]);
            } else {
                assert(r[i] == u[i] && r[j] == l);
            }
        }
    } else {
        let l = s.last();
        assert forall|i: int, j: int| 0 <= i < j < r.len() implies #[trigger] r[i].timestamp
            >= #[trigger] r[j].timestamp by {
            assert(r == s.push(x));
            if j < s.len() {
                assert(r[i] == s[i] && r[j] == s[j]);
            } else if i == s.len() - 1 {
                assert(r[i] == l && r[j] == x);
            } else {
                assert(r[i] == s[i] && r[j] == x);
                assert(s[i].timestamp >= s[s.len() - 1].timestamp);
            }
        }
    }
}

proof fn lemma_requests_newest_first(s: Seq<FileTransferRequest>)
    ensures
        requests_newest_first(requests_newest_first_spec(s)),
        requests_newest_first_spec(s).to_multiset() == s.to_multiset(),
    decreases s.len(),
{
    broadcast use vstd::seq_lib::group_to_multiset_ensures;

    if s.len() > 0 {
        lemma_requests_newest_first(s.drop_last());
        lemma_insert_request(requests_newest_first_spec(s.drop_last()), s.last());
        assert(s == s.drop_last().push(s.last()));
    }
}

fn insert_request_exec(v: &mut Vec<FileTransferRequest>, x: FileTransferRequest)
    ensures
        final(v)@ == insert_request(old(v)@, x),
{
    let ghost s = v@;
    let mut j = v.len();
    assert(s.take(j as int) == s && s.skip(j as int) =~= Seq::<FileTransferRequest>::empty());
    while j > 0 && v[j - 1].timestamp < x.timestamp
        invariant
            0 <= j <= s.len(),
            v@ == s,
            insert_request(s, x) == insert_request(s.take(j as int), x) + s.skip(j as int),
        decreases j,
    {
        let ghost t = s.take(j as int);
        assert(t.drop_last() == s.take(j - 1));
        assert(t.last() == s[j - 1]);
        assert(s.skip(j - 1) == seq![s[j - 1]] + s.skip(j as int));
        j = j - 1;
    }
    proof {
        let t = s.take(j as int);
        if j > 0 {
            assert(t.last() == s[j - 1]);
        }
        assert(insert_request(t, x) == t.push(x));
    }
    v.insert(j, x);
    assert(v@ =~= s.take(j as int).push(x) + s.skip(j as int));
}

fn copy_request(r: &FileTransferRequest) -> (c: FileTransferRequest)
    ensures
        c == *r,
{
    FileTransferRequest {
        id: r.id.clone(),
        filename: r.filename.clone(),
        size: r.size,
        from_device: r.from_device.clone(),
        from_fingerprint: r.from_fingerprint.clone(),
        timestamp: r.timestamp,
    }
}

/// Whether the offer is one of those stored.
pub open spec fn is_stored_offer(m: Map<Seq<char>, FileTransferRequest>, x: FileTransferRequest) -> bool {
    exists|k: Seq<char>| #[trigger] m.contains_key(k) && m[k] == x
}

/// The waiting file offers as listed: each stored offer once, newest first.
pub fn transfer_requests_view(state: &AppState) -> (r: Vec<FileTransferRequest>)
    requires
        state.wf(),
    ensures
        requests_newest_first(r@),
        r@.len() == state.file_transfer_requests@.dom().len(),
        forall|i: int| 0 <= i < r@.len() ==> #[trigger] is_stored_offer(state.file_transfer_requests@, r@[i]),
        forall|k: Seq<char>| #[trigger] state.file_transfer_requests@.contains_key(k) ==> exists|i: int|
            0 <= i < r@.len() && #[trigger] r@[i] == state.file_transfer_requests@[k],
{
    let m = &state.file_transfer_requests;
    proof {
        m.lemma_pairs();
        m.lemma_len();
    }
    let mut out: Vec<FileTransferRequest> = Vec::new();
    let mut i: usize = 0;
    let ghost mut vals: Seq<FileTransferRequest> = Seq::empty();
    while i < m.len()
        invariant
            0 <= i <= m.pairs().len(),
            m == &state.file_transfer_requests,
            state.wf(),
            vals.len() == i,
            forall|j: int| 0 <= j < i ==> #[trigger] vals[j] == m.pairs()[j].1,
            out@ == requests_newest_first_spec(vals),
        decreases m.pairs().len() - i,
    {
        let c = copy_request(m.value_at(i));
        let ghost before = vals;
        proof {
            vals = vals.push(m.pairs()[i as int].1);
        }
        assert(vals.drop_last() =~= before);
        assert(vals.last() == c);
        insert_request_exec(&mut out, c);
        i = i + 1;
    }
    proof {
        broadcast use vstd::seq_lib::group_to_multiset_ensures;
        m.lemma_pairs();
        m.lemma_len();
        lemma_requests_newest_first(vals);
        let r = out@;
        assert(r.to_multiset().len() == vals.to_multiset().len());
        assert forall|a: int| 0 <= a < r.len() implies #[trigger] is_stored_offer(state.file_transfer_requests@, r[a]) by {
            assert(r.to_multiset().count(r[a]) > 0);
            assert(vals.to_multiset().count(r[a]) > 0);
            assert(vals.contains(r[a]));
            let j = choose|j: int| 0 <= j < vals.len() && vals[j] == r[a];
            assert(m@[m.pairs()[j].0] == m.pairs()[j].1);
            assert(m@.contains_key(m.pairs()[j].0));
        }
        assert forall|k: Seq<char>| #[trigger] state.file_transfer_requests@.contains_key(k) implies exists|a: int|
            0 <= a < r.len() && #[trigger] r[a] == state.file_transfer_requests@[k] by {
            let j = choose|j: int| 0 <= j < m.pairs().len() && #[trigger] m.pairs()[j].0 == k;
            assert(vals[j] == m.pairs()[j].1);
            assert(vals.to_multiset().count(vals[j]) > 0) by {
                assert(vals.contains(vals[j]));
            }
            assert(r.to_multiset().count(vals[j]) > 0);
            assert(r.contains(vals[j]));
            let a = choose|a: int| 0 <= a < r.len() && r[a] == vals[j];
            assert(m@[k] == m.pairs()[j].1);
        }
    }
    out
}


/// The media summary shown: what plays and where.
#[derive(Clone, Debug)]
pub struct MediaSummary {
    pub title: String,
    pub artist: String,
    pub playing: bool,
    pub source_device_id: String,
}

/// The summary of what plays: "Not Playing" from this computer when
/// nothing was reported; otherwise the reported track, with "Unknown
/// Title" and "Unknown Artist" for what is missing.
pub open spec fn media_summary_matches(s: MediaSummary, m: Option<RemoteMedia>) -> bool {
    match m {
        None => s.title@ == "Not Playing"@ && s.artist@.len() == 0 && !s.playing
            && s.source_device_id@ == "local"@,
        Some(rm) => {
            &&& s.title@ == (match rm.state.title {
                Some(t) => t@,
                None => "Unknown Title"@,
            })
            &&& s.artist@ == (match rm.state.artist {
                Some(a) => a@,
                None => "Unknown Artist"@,
            })
            &&& s.playing == rm.state.playing
            &&& s.source_device_id@ == rm.source_device_id@
        },
    }
}

/// The media summary shown for the state.
pub fn media_summary(state: &AppState) -> (s: MediaSummary)
    ensures
        media_summary_matches(s, state.current_media),
{
    match &state.current_media {
        None => MediaSummary {
            title: String::from_str("Not Playing"),
            artist: String::new(),
            playing: false,
            source_device_id: String::from_str("local"),
        },
        Some(rm) => MediaSummary {
            title: match &rm.state.title {
                Some(t) => t.clone(),
                None => String::from_str("Unknown Title"),
            },
            artist: match &rm.state.artist {
                Some(a) => a.clone(),
                None => String::from_str("Unknown Artist"),
            },
            playing: rm.state.playing,
            source_device_id: rm.source_device_id.clone(),
        },
    }
}

/// Which phone data to fetch after a device was selected.
#[derive(Clone, Copy, Debug, PartialEq, Eq, Structural)]
pub struct SyncRequests {
    pub conversations: bool,
    pub call_log: bool,
    pub contacts: bool,
}

/// A device was selected (or none): it becomes the phone whose data is
/// shown, and each kind of data is fetched when its automatic sync is on
/// and it is not synced yet for that phone.
pub fn select_phone_device(state: &mut AppState, device_id: Option<String>) -> (r: SyncRequests)
    requires
        old(state).wf(),
    ensures
        final(state).wf(),
        opt_view(final(state).phone_data_device_id) == opt_view(device_id),
        opt_view(old(state).phone_data_device_id) == opt_view(device_id) ==> *final(state) == *old(state),
        device_id is None ==> r == (SyncRequests { conversations: false, call_log: false, contacts: false }),
        device_id is Some ==> r == (SyncRequests {
            conversations: final(state).settings.auto_sync_messages && !final(state).phone_sync.messages_synced,
            call_log: final(state).settings.auto_sync_calls && !final(state).phone_sync.calls_synced,
            contacts: final(state).settings.auto_sync_contacts && !final(state).phone_sync.contacts_synced,
        }),
        final(state).settings == old(state).settings,
        opt_view(old(state).phone_data_device_id) != opt_view(device_id) ==> {
            &&& final(state).phone_sync == (PhoneSyncState {
                messages_synced: false,
                calls_synced: false,
                contacts_synced: false,
            })
            &&& final(state).phone_contacts@.len() == 0
            &&& final(state).phone_conversations@.len() == 0
            &&& final(state).phone_messages@ == Map::<Seq<char>, Vec<FfiSmsMessage>>::empty()
            &&& final(state).phone_call_log@.len() == 0
        },
        *final(state) == (AppState {
            phone_data_device_id: final(state).phone_data_device_id,
            phone_sync: final(state).phone_sync,
            phone_contacts: final(state).phone_contacts,
            phone_conversations: final(state).phone_conversations,
            phone_messages: final(state).phone_messages,
            phone_call_log: final(state).phone_call_log,
            ..*old(state)
        }),
{
    let selected = device_id.is_some();
    set_phone_data_device(state, device_id);
    if !selected {
        return SyncRequests { conversations: false, call_log: false, contacts: false };
    }
    SyncRequests {
        conversations: state.settings.auto_sync_messages && !state.phone_sync.messages_synced,
        call_log: state.settings.auto_sync_calls && !state.phone_sync.calls_synced,
        contacts: state.settings.auto_sync_contacts && !state.phone_sync.contacts_synced,
    }
}

/// Clipboard syncing was switched: the setting follows, and when it is
/// switched on, the text now on the clipboard counts as seen (so it is not
/// sent at once); the user is told.
pub fn set_clipboard_sync(state: &mut AppState, enabled: bool, current_clipboard: String, now: u64)
    requires
        old(state).wf(),
        old(state).notification_counter < u64::MAX,
    ensures
        final(state).wf(),
        final(state).settings.clipboard_sync_enabled == enabled,
        enabled ==> final(state).last_clipboard == current_clipboard,
        !enabled ==> final(state).last_clipboard == old(state).last_clipboard,
        notification_added(
            *old(state),
            *final(state),
            "Clipboard Sync"@,
            (if enabled {
                "Sync Started (Trusted Devices)"@
            } else {
                "Sync Stopped"@
            }),
            ""@,
            now,
        ),
        *final(state) == (AppState {
            settings: AppSettings { clipboard_sync_enabled: enabled, ..old(state).settings },
            last_clipboard: final(state).last_clipboard,
            notifications: final(state).notifications,
            notification_counter: final(state).notification_counter,
            ..*old(state)
        }),
{
    crate::settings::set_clipboard_sync_enabled(&mut state.settings, enabled);
    if enabled {
        state.last_clipboard = current_clipboard;
        add_notification(state, "Clipboard Sync", "Sync Started (Trusted Devices)", "", now);
    } else {
        add_notification(state, "Clipboard Sync", "Sync Stopped", "", now);
    }
}

/// Media control was switched: it follows, and when asked the user is told.
pub fn set_media_control(state: &mut AppState, enabled: bool, notify: bool, now: u64)
    requires
        old(state).wf(),
        old(state).notification_counter < u64::MAX,
    ensures
        final(state).wf(),
        final(state).media_enabled == enabled,
        notify ==> notification_added(
            *old(state),
            *final(state),
            "Media Control"@,
            (if enabled {
                "Media control enabled"@
            } else {
                "Media control disabled"@
            }),
            ""@,
            now,
        ),
        !notify ==> final(state).notifications == old(state).notifications
            && final(state).notification_counter == old(state).notification_counter,
        *final(state) == (AppState {
            media_enabled: enabled,
            notifications: final(state).notifications,
            notification_counter: final(state).notification_counter,
            ..*old(state)
        }),
{
    state.media_enabled = enabled;
    if notify {
        if enabled {
            add_notification(state, "Media Control", "Media control enabled", "", now);
        } else {
            add_notification(state, "Media Control", "Media control disabled", "", now);
        }
    }
}

/// The device that media commands for the phone's player go to: the one
/// that last reported what it plays, when it is a shown device that is not
/// offline.
pub open spec fn remote_media_target_spec(s: AppState) -> Option<DeviceInfo> {
    match s.last_remote_media_device_id {
        None => None,
        Some(id) => if id@.len() == 0 || id@ == "local"@ || id@ == "unknown"@ || !s.devices@.contains_key(id@)
            || s.devices@[id@].ip@ == "0.0.0.0"@ {
            None
        } else {
            Some(s.devices@[id@])
        },
    }
}

/// The device media commands for the phone's player go to.
pub fn remote_media_target(state: &AppState) -> (r: Option<DeviceInfo>)
    requires
        state.wf(),
    ensures
        r == remote_media_target_spec(*state),
{
    let id = match &state.last_remote_media_device_id {
        Some(id) => id,
        None => return None,
    };
    if id.as_str().is_empty() || *id == String::from_str("local") || *id == String::from_str("unknown") {
        return None;
    }
    match state.devices.get(id.as_str()) {
        Some(d) => {
            if d.ip == String::from_str("0.0.0.0") {
                None
            } else {
                Some(copy_device(d))
            }
        },
        None => None,
    }
}

/// What the user is told when asking the phone for data failed.
pub open spec fn sync_failure_text(error: Seq<char>) -> Seq<char> {
    if contains_text(error, "timed out"@) {
        "Connection timed out. Is the device online?"@
    } else {
        "Sync failed: "@ + error
    }
}

/// Asking the phone for data failed: the user is told.
pub fn on_sync_request_failed(state: &mut AppState, error: &str, now: u64)
    requires
        old(state).wf(),
        old(state).notification_counter < u64::MAX,
    ensures
        final(state).wf(),
        notification_added(*old(state), *final(state), "Phone"@, sync_failure_text(error@), ""@, now),
        *final(state) == (AppState {
            notifications: final(state).notifications,
            notification_counter: final(state).notification_counter,
            ..*old(state)
        }),
{
    let e = chars_of(error);
    let t = chars_of("timed out");
    if contains_chars(e.as_slice(), t.as_slice()) {
        add_notification(state, "Phone", "Connection timed out. Is the device online?", "", now);
    } else {
        let mut msg = String::from_str("Sync failed: ");
        msg.append(error);
        add_notification(state, "Phone", msg.as_str(), "", now);
    }
}

/// Whether Bluetooth is on by the radio-switch tool's output: neither soft-
/// nor hard-blocked.
pub open spec fn bluetooth_on_spec(output: Seq<char>) -> bool {
    !contains_text(output, "Soft blocked: yes"@) && !contains_text(output, "Hard blocked: yes"@)
}

/// Whether Bluetooth is on by the radio-switch tool's output.
pub fn bluetooth_on(output: &str) -> (b: bool)
    ensures
        b == bluetooth_on_spec(output@),
{
    let o = chars_of(output);
    let soft = chars_of("Soft blocked: yes");
    let hard = chars_of("Hard blocked: yes");
    !contains_chars(o.as_slice(), soft.as_slice()) && !contains_chars(o.as_slice(), hard.as_slice())
}

/// Whether Wi-Fi is on by the network tool's output: it says "enabled".
pub open spec fn wifi_on_spec(output: Seq<char>) -> bool {
    trim_spec(output) == "enabled"@
}

/// Whether Wi-Fi is on by the network tool's output.
pub fn wifi_on(output: &str) -> (b: bool)
    ensures
        b == wifi_on_spec(output@),
{
    let cs = chars_of(output);
    let i = skip_ws(cs.as_slice(), 0);
    assert(cs@.skip(0) =~= cs@);
    let k = skip_ws_back(cs.as_slice(), i, cs.len());
    assert(cs@.subrange(i as int, cs@.len() as int) =~= cs@.skip(i as int));
    let trimmed = crate::text::string_of(&cs[i..k]);
    trimmed == String::from_str("enabled")
}

/// The buttons a device card offers.
#[derive(Clone, Copy, Debug, PartialEq, Eq, Structural)]
pub enum CardActions {
    /// A pairing with the device is under way.
    Waiting,
    /// The device may be paired with, or sent a file without pairing.
    PairOrSend,
    /// The trusted device under the pointer may be opened.
    Open,
    /// No buttons.
    Nothing,
}

/// How a device is shown on its card.
#[derive(Clone, Debug)]
pub struct DeviceCardView {
    pub card_class: String,
    pub address: String,
    pub show_device_type: bool,
    pub status: String,
    pub actions: CardActions,
    pub opens_on_click: bool,
}

/// The address line of a card: "Offline (BLE)" for a device only seen
/// over Bluetooth, else the address and port.
pub open spec fn card_address(d: DeviceInfo) -> Seq<char> {
    if d.ip@ == "0.0.0.0"@ {
        "Offline (BLE)"@
    } else {
        d.ip@ + ":"@ + dec(d.port as nat)
    }
}

/// The buttons on a card: untrusted devices can be paired with or sent a
/// file unless a pairing is under way; a trusted device under the pointer
/// can be opened.
pub open spec fn card_actions(d: DeviceInfo, hovered: bool) -> CardActions {
    if !d.is_trusted {
        if d.is_pending {
            CardActions::Waiting
        } else {
            CardActions::PairOrSend
        }
    } else if hovered {
        CardActions::Open
    } else {
        CardActions::Nothing
    }
}

/// How a device is shown on its card, selected or not, under the pointer
/// or not. Its type is shown unless it is "unknown" (in any case); only a
/// trusted device opens when the card is clicked.
pub fn device_card_view(device: &DeviceInfo, is_selected: bool, hovered: bool) -> (v: DeviceCardView)
    ensures
        v.card_class@ == (if is_selected {
            "device-card selected"@
        } else {
            "device-card"@
        }),
        v.address@ == card_address(*device),
        v.show_device_type == (lowercase(device.device_type@) != "unknown"@),
        v.status@ == (if device.is_trusted {
            "Trusted"@
        } else {
            "Not paired"@
        }),
        v.actions == card_actions(*device, hovered),
        v.opens_on_click == device.is_trusted,
{
    let card_class = if is_selected {
        String::from_str("device-card selected")
    } else {
        String::from_str("device-card")
    };
    let address = if device.ip == String::from_str("0.0.0.0") {
        String::from_str("Offline (BLE)")
    } else {
        let mut a = device.ip.clone();
        a.append(":");
        let p = decimal_string(device.port as u64);
        a.append(p.as_str());
        a
    };
    let kind = to_lowercase(device.device_type.as_str());
    let show_device_type = kind != String::from_str("unknown");
    let status = if device.is_trusted {
        String::from_str("Trusted")
    } else {
        String::from_str("Not paired")
    };
    let actions = if !device.is_trusted {
        if device.is_pending {
            CardActions::Waiting
        } else {
            CardActions::PairOrSend
        }
    } else if hovered {
        CardActions::Open
    } else {
        CardActions::Nothing
    };
    DeviceCardView { card_class, address, show_device_type, status, actions, opens_on_click: device.is_trusted }
}

/// The texts of the send dialog and the chosen paths it lists.
#[derive(Clone, Debug)]
pub struct SendDialogView {
    pub title: String,
    pub device_name: String,
    pub drop_text: String,
    pub support_text: String,
    pub select_text: String,
    pub button_text: String,
    pub listed_paths: Vec<String>,
    pub more_text: Option<String>,
    pub can_send: bool,
}

/// The label of the send button: one folder, one file, or the number of
/// files.
pub open spec fn send_button_text(is_folder: bool, n: nat) -> Seq<char> {
    if is_folder {
        " Send Folder"@
    } else if n > 1 {
        " Send "@ + dec(n) + " Files"@
    } else {
        " Send File"@
    }
}

/// The chosen paths as listed: all of them when there are at most three,
/// else the first two followed by a line counting the others.
pub open spec fn listed_paths_spec(paths: Seq<String>) -> Seq<String> {
    if paths.len() > 3 {
        paths.take(2)
    } else {
        paths
    }
}

/// The send dialog for a file or folder transfer to `device` (none when the
/// device is not known), with the paths chosen so far.
pub fn send_dialog_view(is_folder: bool, device: &Option<DeviceInfo>, paths: &Vec<String>) -> (v: SendDialogView)
    ensures
        v.title@ == (if is_folder { " Send Folder"@ } else { " Send Files"@ }),
        v.device_name@ == (match device {
            Some(d) => d.name@,
            None => "Unknown Device"@,
        }),
        v.drop_text@ == (if is_folder {
            "Click to browse a folder"@
        } else {
            "Click to browse or drag files here"@
        }),
        v.support_text@ == (if is_folder {
            "Folder will be sent as a zip archive"@
        } else {
            "Supports multiple files and types"@
        }),
        v.select_text@ == (if is_folder { "Select a Folder"@ } else { "Select Files"@ }),
        v.button_text@ == send_button_text(is_folder, paths@.len()),
        v.listed_paths@ == listed_paths_spec(paths@),
        match v.more_text {
            Some(t) => paths@.len() > 3 && t@ == "... and "@ + dec((paths@.len() - 2) as nat) + " more"@,
            None => paths@.len() <= 3,
        },
        v.can_send == (paths@.len() > 0),
{
    let n = paths.len();
    let title = if is_folder {
        String::from_str(" Send Folder")
    } else {
        String::from_str(" Send Files")
    };
    let device_name = match device {
        Some(d) => d.name.clone(),
        None => String::from_str("Unknown Device"),
    };
    let drop_text = if is_folder {
        String::from_str("Click to browse a folder")
    } else {
        String::from_str("Click to browse or drag files here")
    };
    let support_text = if is_folder {
        String::from_str("Folder will be sent as a zip archive")
    } else {
        String::from_str("Supports multiple files and types")
    };
    let select_text = if is_folder {
        String::from_str("Select a Folder")
    } else {
        String::from_str("Select Files")
    };
    let button_text = if is_folder {
        String::from_str(" Send Folder")
    } else if n > 1 {
        let mut b = String::from_str(" Send ");
        let c = decimal_string(n as u64);
        b.append(c.as_str());
        b.append(" Files");
        b
    } else {
        String::from_str(" Send File")
    };
    let mut listed: Vec<String> = Vec::new();
    let shown = if n > 3 {
        2
    } else {
        n
    };
    let mut i: usize = 0;
    while i < shown
        invariant
            0 <= i <= shown <= paths@.len(),
            shown == (if paths@.len() > 3 { 2 } else { paths@.len() }),
            listed@ == paths@.take(i as int),
        decreases shown - i,
    {
        listed.push(paths[i].clone());
        assert(paths@.take(i + 1) =~= paths@.take(i as int).push(paths@[i as int]));
        i = i + 1;
    }
    assert(paths@.take(paths@.len() as int) =~= paths@);
    let more_text = if n > 3 {
        let mut t = String::from_str("... and ");
        let c = decimal_string((n - 2) as u64);
        t.append(c.as_str());
        t.append(" more");
        Some(t)
    } else {
        None
    };
    SendDialogView {
        title,
        device_name,
        drop_text,
        support_text,
        select_text,
        button_text,
        listed_paths: listed,
        more_text,
        can_send: n > 0,
    }
}

/// The look of a selection box: checked, partly checked (some of the
/// listed entries are selected), or empty.
pub fn checkbox_class(checked: bool, partial: bool) -> (c: &'static str)
    ensures
        c@ == (if checked {
            "checkbox checked"@
        } else if partial {
            "checkbox partial"@
        } else {
            "checkbox"@
        }),
{
    if checked {
        "checkbox checked"
    } else if partial {
        "checkbox partial"
    } else {
        "checkbox"
    }
}

} // verus!
