//! The application's runtime stores: discovered devices, notifications,
//! pairing and file-transfer requests, remote browsing data, cached phone
//! data and the persistent settings, gathered in one value. Times are
//! milliseconds of a monotonic clock supplied by the caller.

use vstd::prelude::*;
use crate::ffi::{DiscoveredDevice, FfiActiveCall, FfiCallLogEntry, FfiContact, FfiConversation, FfiSmsMessage, MediaState};
use crate::filesystem::FsEntry;
use crate::settings::AppSettings;
use crate::strmap::StrMap;
use vstd::std_specs::convert::FromSpecImpl;

verus! {

/// How many notifications are kept; older ones are dropped.
pub const MAX_NOTIFICATIONS: usize = 5;

/// How long a file-transfer request stays pending, in milliseconds.
pub const TRANSFER_REQUEST_TIMEOUT_MS: u64 = 300000;

/// A device in the discovered-devices store.
#[derive(Debug, Clone)]
pub struct DeviceInfo {
    pub id: String,
    pub name: String,
    pub ip: String,
    pub port: u16,
    pub device_type: String,
    pub is_trusted: bool,
    pub is_pending: bool,
}

impl From<DiscoveredDevice> for DeviceInfo {
    /// A newly discovered device is neither trusted nor pending.
    fn from(d: DiscoveredDevice) -> (r: DeviceInfo) {
        DeviceInfo {
            id: d.id,
            name: d.name,
            ip: d.ip,
            port: d.port,
            device_type: d.device_type,
            is_trusted: false,
            is_pending: false,
        }
    }
}

impl FromSpecImpl<DiscoveredDevice> for DeviceInfo {
    open spec fn obeys_from_spec() -> bool {
        true
    }

    open spec fn from_spec(d: DiscoveredDevice) -> DeviceInfo {
        device_info_of(d)
    }
}

/// The store entry for a newly discovered device: neither trusted nor pending.
pub open spec fn device_info_of(d: DiscoveredDevice) -> DeviceInfo {
    DeviceInfo {
        id: d.id,
        name: d.name,
        ip: d.ip,
        port: d.port,
        device_type: d.device_type,
        is_trusted: false,
        is_pending: false,
    }
}

/// An in-app notification.
#[derive(Debug, Clone)]
pub struct Notification {
    pub id: u64,
    pub title: String,
    pub message: String,
    pub icon: String,
    pub timestamp: u64,
}

/// A peer asking to pair.
#[derive(Debug, Clone)]
pub struct PairingRequest {
    pub fingerprint: String,
    pub device_name: String,
    pub device_id: String,
}

/// An incoming file offer waiting for the user's answer.
#[derive(Debug, Clone)]
pub struct FileTransferRequest {
    pub id: String,
    pub filename: String,
    pub size: u64,
    pub from_device: String,
    pub from_fingerprint: String,
    pub timestamp: u64,
}

/// Which kinds of phone data have been fetched from the current phone.
#[derive(Debug, Clone, Copy, PartialEq, Eq, Structural)]
pub struct PhoneSyncState {
    pub messages_synced: bool,
    pub calls_synced: bool,
    pub contacts_synced: bool,
}

impl Default for PhoneSyncState {
    /// Nothing synced.
    fn default() -> (s: Self)
        ensures
            s == (PhoneSyncState { messages_synced: false, calls_synced: false, contacts_synced: false }),
    {
        PhoneSyncState { messages_synced: false, calls_synced: false, contacts_synced: false }
    }
}

/// What a phone's media player is playing, and which device reported it.
#[derive(Debug, Clone)]
pub struct RemoteMedia {
    pub state: MediaState,
    pub source_device_id: String,
}

/// A file fetched for preview.
#[derive(Debug, Clone)]
pub struct PreviewData {
    pub filename: String,
    pub mime_type: String,
    pub data: Vec<u8>,
}

/// Every store of the running application.
pub struct AppState {
    pub settings: AppSettings,
    pub sdk_initialized: bool,
    pub discovery_active: bool,
    pub media_enabled: bool,
    pub pairing_mode: bool,
    pub devices: StrMap<DeviceInfo>,
    pub notifications: Vec<Notification>,
    pub notification_counter: u64,
    pub last_clipboard: String,
    pub last_remote_update: u64,
    pub last_remote_clipboard_content: String,
    pub pairing_requests: Vec<PairingRequest>,
    pub pending_pairings: StrMap<()>,
    pub file_transfer_requests: StrMap<FileTransferRequest>,
    pub remote_path: String,
    pub remote_files: Option<Vec<FsEntry>>,
    pub remote_files_update: u64,
    pub preview_data: Option<PreviewData>,
    pub thumbnails: StrMap<Vec<u8>>,
    pub thumbnails_update: u64,
    pub last_remote_media_device_id: Option<String>,
    pub phone_data_device_id: Option<String>,
    pub phone_sync: PhoneSyncState,
    pub phone_contacts: Vec<FfiContact>,
    pub phone_conversations: Vec<FfiConversation>,
    pub phone_messages: StrMap<Vec<FfiSmsMessage>>,
    pub phone_call_log: Vec<FfiCallLogEntry>,
    pub phone_data_update: u64,
    pub active_call: Option<FfiActiveCall>,
    pub current_media: Option<RemoteMedia>,
    /// Whether the notifications setting decides if in-app notifications
    /// are kept. It does on Linux and Windows; on other systems every
    /// notification is kept whatever the setting says.
    pub notifications_gated: bool,
}

/// Every stored device is stored under its own id.
pub open spec fn keyed_by_id(m: Map<Seq<char>, DeviceInfo>) -> bool {
    forall|k: Seq<char>| #[trigger] m.contains_key(k) ==> m[k].id@ == k
}

/// No two stored devices share an IP address.
pub open spec fn ips_distinct(m: Map<Seq<char>, DeviceInfo>) -> bool {
    forall|a: Seq<char>, b: Seq<char>|
        #[trigger] m.contains_key(a) && #[trigger] m.contains_key(b) && a != b ==> m[a].ip@ != m[b].ip@
}

/// Notification ids grow from oldest to newest and never pass the counter.
pub open spec fn notifications_ordered(ns: Seq<Notification>, counter: u64) -> bool {
    &&& forall|i: int, j: int| 0 <= i < j < ns.len() ==> #[trigger] ns[i].id < #[trigger] ns[j].id
    &&& forall|i: int| 0 <= i < ns.len() ==> #[trigger] ns[i].id <= counter
}

impl AppState {
    /// The invariant of the stores.
    pub open spec fn wf(&self) -> bool {
        &&& self.settings.wf()
        &&& self.devices.wf()
        &&& keyed_by_id(self.devices@)
        &&& self.pending_pairings.wf()
        &&& self.file_transfer_requests.wf()
        &&& self.thumbnails.wf()
        &&& self.phone_messages.wf()
        &&& self.notifications@.len() <= MAX_NOTIFICATIONS
        &&& notifications_ordered(self.notifications@, self.notification_counter)
    }

    /// Fresh stores around the loaded settings; the media toggle starts from
    /// the persisted one.
    pub fn new(settings: AppSettings, now: u64) -> (s: AppState)
        requires
            settings.wf(),
        ensures
            s.wf(),
            s.settings == settings,
            !s.sdk_initialized,
            !s.discovery_active,
            s.media_enabled == settings.media_enabled,
            !s.pairing_mode,
            s.devices@ == Map::<Seq<char>, DeviceInfo>::empty(),
            s.notifications@.len() == 0,
            s.notification_counter == 0,
            s.last_clipboard@.len() == 0,
            s.last_remote_update == now,
            s.last_remote_clipboard_content@.len() == 0,
            s.pairing_requests@.len() == 0,
            s.pending_pairings@ == Map::<Seq<char>, ()>::empty(),
            s.file_transfer_requests@ == Map::<Seq<char>, FileTransferRequest>::empty(),
            s.remote_path@ == seq!['/'],
            s.remote_files is None,
            s.remote_files_update == now,
            s.preview_data is None,
            s.thumbnails@ == Map::<Seq<char>, Vec<u8>>::empty(),
            s.thumbnails_update == now,
            s.last_remote_media_device_id is None,
            s.phone_data_device_id is None,
            s.phone_sync == (PhoneSyncState { messages_synced: false, calls_synced: false, contacts_synced: false }),
            s.phone_contacts@.len() == 0,
            s.phone_conversations@.len() == 0,
            s.phone_messages@ == Map::<Seq<char>, Vec<FfiSmsMessage>>::empty(),
            s.phone_call_log@.len() == 0,
            s.phone_data_update == now,
            s.active_call is None,
            s.current_media is None,
            s.notifications_gated,
    {
        let media_enabled = settings.media_enabled;
        let mut remote_path = String::new();
        crate::text::push_char(&mut remote_path, '/');
        AppState {
            settings,
            sdk_initialized: false,
            discovery_active: false,
            media_enabled,
            pairing_mode: false,
            devices: StrMap::new(),
            notifications: Vec::new(),
            notification_counter: 0,
            last_clipboard: String::new(),
            last_remote_update: now,
            last_remote_clipboard_content: String::new(),
            pairing_requests: Vec::new(),
            pending_pairings: StrMap::new(),
            file_transfer_requests: StrMap::new(),
            remote_path,
            remote_files: None,
            remote_files_update: now,
            preview_data: None,
            thumbnails: StrMap::new(),
            thumbnails_update: now,
            last_remote_media_device_id: None,
            phone_data_device_id: None,
            phone_sync: PhoneSyncState::default(),
            phone_contacts: Vec::new(),
            phone_conversations: Vec::new(),
            phone_messages: StrMap::new(),
            phone_call_log: Vec::new(),
            phone_data_update: now,
            active_call: None,
            current_media: None,
            notifications_gated: true,
        }
    }
}

/// Sets whether the notifications setting decides if in-app notifications
/// are kept (on Linux and Windows it does).
pub fn set_notifications_gated(state: &mut AppState, gated: bool)
    ensures
        *final(state) == (AppState { notifications_gated: gated, ..*old(state) }),
{
    state.notifications_gated = gated;
}

/// The persistent settings.
pub fn get_app_settings(state: &AppState) -> (s: &AppSettings)
    ensures
        *s == state.settings,
{
    &state.settings
}

/// Whether the core has been started.
pub fn get_sdk_initialized(state: &AppState) -> (b: bool)
    ensures
        b == state.sdk_initialized,
{
    state.sdk_initialized
}

/// Records whether the core has been started.
pub fn set_sdk_initialized(state: &mut AppState, value: bool)
    ensures
        *final(state) == (AppState { sdk_initialized: value, ..*old(state) }),
{
    state.sdk_initialized = value;
}

/// Whether the core has been started.
pub fn is_sdk_initialized(state: &AppState) -> (b: bool)
    ensures
        b == state.sdk_initialized,
{
    state.sdk_initialized
}

/// Whether discovery is running.
pub fn get_discovery_active(state: &AppState) -> (b: bool)
    ensures
        b == state.discovery_active,
{
    state.discovery_active
}

/// Records whether discovery is running.
pub fn set_discovery_active(state: &mut AppState, value: bool)
    ensures
        *final(state) == (AppState { discovery_active: value, ..*old(state) }),
{
    state.discovery_active = value;
}

/// Whether discovery is running.
pub fn is_discovery_active(state: &AppState) -> (b: bool)
    ensures
        b == state.discovery_active,
{
    state.discovery_active
}

/// Whether media control is active in this session.
pub fn get_media_enabled(state: &AppState) -> (b: bool)
    ensures
        b == state.media_enabled,
{
    state.media_enabled
}

/// Whether this device accepts pairing requests.
pub fn get_pairing_mode_state(state: &AppState) -> (b: bool)
    ensures
        b == state.pairing_mode,
{
    state.pairing_mode
}

/// Records whether this device accepts pairing requests.
pub fn set_pairing_mode_state(state: &mut AppState, enabled: bool)
    ensures
        *final(state) == (AppState { pairing_mode: enabled, ..*old(state) }),
{
    state.pairing_mode = enabled;
}

/// The discovered devices by id.
pub fn get_devices_store(state: &AppState) -> (m: &StrMap<DeviceInfo>)
    ensures
        m@ == state.devices@,
{
    &state.devices
}

/// The kept notifications, oldest first.
pub fn get_notifications(state: &AppState) -> (v: &Vec<Notification>)
    ensures
        v@ == state.notifications@,
{
    &state.notifications
}

/// The id of the latest notification (0 before the first).
pub fn get_notification_counter(state: &AppState) -> (n: u64)
    ensures
        n == state.notification_counter,
{
    state.notification_counter
}

/// The last clipboard text seen locally.
pub fn get_last_clipboard(state: &AppState) -> (s: &String)
    ensures
        s@ == state.last_clipboard@,
{
    &state.last_clipboard
}

/// When a clipboard update last arrived from a remote device.
pub fn get_last_remote_update(state: &AppState) -> (t: u64)
    ensures
        t == state.last_remote_update,
{
    state.last_remote_update
}

/// The text of the last clipboard update received from a remote device.
pub fn get_last_remote_clipboard_content(state: &AppState) -> (s: &String)
    ensures
        s@ == state.last_remote_clipboard_content@,
{
    &state.last_remote_clipboard_content
}

/// Records the text of a clipboard update received from a remote device.
pub fn set_last_remote_clipboard_content(state: &mut AppState, content: String)
    ensures
        *final(state) == (AppState { last_remote_clipboard_content: content, ..*old(state) }),
{
    state.last_remote_clipboard_content = content;
}

/// Pairing requests waiting for an answer.
pub fn get_pairing_requests(state: &AppState) -> (v: &Vec<PairingRequest>)
    ensures
        v@ == state.pairing_requests@,
{
    &state.pairing_requests
}

/// Devices with a pairing in progress.
pub fn get_pending_pairings(state: &AppState) -> (m: &StrMap<()>)
    ensures
        m@ == state.pending_pairings@,
{
    &state.pending_pairings
}

/// File offers waiting for an answer, by transfer id.
pub fn get_file_transfer_requests(state: &AppState) -> (m: &StrMap<FileTransferRequest>)
    ensures
        m@ == state.file_transfer_requests@,
{
    &state.file_transfer_requests
}

/// The device whose media state was received last.
pub fn get_last_remote_media_device_id(state: &AppState) -> (d: &Option<String>)
    ensures
        *d == state.last_remote_media_device_id,
{
    &state.last_remote_media_device_id
}

/// The path shown in the remote file browser.
pub fn get_current_remote_path(state: &AppState) -> (s: &String)
    ensures
        s@ == state.remote_path@,
{
    &state.remote_path
}

/// When the remote listing last changed.
pub fn get_remote_files_update(state: &AppState) -> (t: u64)
    ensures
        t == state.remote_files_update,
{
    state.remote_files_update
}

/// The file shown in the preview, if any.
pub fn get_preview_data(state: &AppState) -> (p: &Option<PreviewData>)
    ensures
        *p == state.preview_data,
{
    &state.preview_data
}

/// Thumbnail images by remote path.
pub fn get_thumbnails(state: &AppState) -> (m: &StrMap<Vec<u8>>)
    ensures
        m@ == state.thumbnails@,
{
    &state.thumbnails
}

/// When a thumbnail last arrived.
pub fn get_thumbnails_update(state: &AppState) -> (t: u64)
    ensures
        t == state.thumbnails_update,
{
    state.thumbnails_update
}

/// When the cached phone data last changed.
pub fn get_phone_data_update(state: &AppState) -> (t: u64)
    ensures
        t == state.phone_data_update,
{
    state.phone_data_update
}

/// The phone whose data is cached.
pub fn get_phone_data_device_id(state: &AppState) -> (d: &Option<String>)
    ensures
        *d == state.phone_data_device_id,
{
    &state.phone_data_device_id
}

/// Which kinds of phone data have been fetched.
pub fn get_phone_sync_state(state: &AppState) -> (s: PhoneSyncState)
    ensures
        s == state.phone_sync,
{
    state.phone_sync
}

/// The notification list after `n` is added: appended, and the oldest one
/// dropped when more than `MAX_NOTIFICATIONS` would be kept.
pub open spec fn notifications_after(ns: Seq<Notification>, n: Notification) -> Seq<Notification> {
    let pushed = ns.push(n);
    if pushed.len() > MAX_NOTIFICATIONS {
        pushed.drop_first()
    } else {
        pushed
    }
}

/// Whether a notification is kept in this state: always where the setting
/// does not gate notifications, else when notifications are turned on.
pub open spec fn notifications_allowed(s: AppState) -> bool {
    !s.notifications_gated || s.settings.notifications_enabled
}

/// How `after` relates to `before` when a notification with the given text
/// is added at `now`: when notifications are allowed, the counter moves to
/// the new id and the list is `notifications_after` the new notification;
/// otherwise both stay as they were.
pub open spec fn notification_added(
    before: AppState,
    after: AppState,
    title: Seq<char>,
    message: Seq<char>,
    icon: Seq<char>,
    now: u64,
) -> bool {
    if notifications_allowed(before) {
        let n = after.notifications@.last();
        &&& after.notification_counter == before.notification_counter + 1
        &&& n.id == after.notification_counter
        &&& n.title@ == title
        &&& n.message@ == message
        &&& n.icon@ == icon
        &&& n.timestamp == now
        &&& after.notifications@ == notifications_after(before.notifications@, n)
    } else {
        &&& after.notification_counter == before.notification_counter
        &&& after.notifications == before.notifications
    }
}

/// Adds an in-app notification, unless notifications are gated by the
/// setting and turned off. The new notification gets the next id and the
/// time `now`.
pub fn add_notification(state: &mut AppState, title: &str, message: &str, icon: &str, now: u64)
    requires
        old(state).wf(),
        old(state).notification_counter < u64::MAX,
    ensures
        final(state).wf(),
        notification_added(*old(state), *final(state), title@, message@, icon@, now),
        *final(state) == (AppState {
            notifications: final(state).notifications,
            notification_counter: final(state).notification_counter,
            ..*old(state)
        }),
{
    if state.notifications_gated && !state.settings.notifications_enabled {
        return;
    }
    state.notification_counter = state.notification_counter + 1;
    let id = state.notification_counter;
    let n = Notification {
        id,
        title: String::from_str(title),
        message: String::from_str(message),
        icon: String::from_str(icon),
        timestamp: now,
    };
    let ghost before = state.notifications@;
    let ghost nn = n;
    state.notifications.push(n);
    if state.notifications.len() > MAX_NOTIFICATIONS {
        let _ = state.notifications.remove(0);
        assert(state.notifications@ == before.push(nn).drop_first());
    }
    proof {
        let ns = state.notifications@;
        assert(ns.last() == nn);
        assert forall|i: int, j: int| 0 <= i < j < ns.len() implies #[trigger] ns[i].id
            < #[trigger] ns[j].id by {
            let pushed = before.push(nn);
            if pushed.len() > MAX_NOTIFICATIONS {
                assert(ns[i] == pushed[i + 1] && ns[j] == pushed[j + 1]);
            } else {
                assert(ns[i] == pushed[i] && ns[j] == pushed[j]);
            }
        }
        assert forall|i: int| 0 <= i < ns.len() implies #[trigger] ns[i].id
            <= state.notification_counter by {
            let pushed = before.push(nn);
            if pushed.len() > MAX_NOTIFICATIONS {
                assert(ns[i] == pushed[i + 1]);
            } else {
                assert(ns[i] == pushed[i]);
            }
        }
    }
}

/// The number of states, among `states`, in which a notification is kept.
pub open spec fn allowed_count(states: Seq<AppState>) -> nat
    decreases states.len(),
{
    if states.len() == 0 {
        0
    } else {
        allowed_count(states.drop_last()) + (if notifications_allowed(states.last()) {
            1nat
        } else {
            0nat
        })
    }
}

/// Over any run of notifications (`texts[i]` added to `states[i]` gives
/// `states[i + 1]`), the counter grows by the number of them made while
/// notifications were allowed; once one was kept, the newest kept
/// notification carries the counter as its id.
pub proof fn lemma_counter_counts_allowed_notifications(
    states: Seq<AppState>,
    texts: Seq<(Seq<char>, Seq<char>, Seq<char>, u64)>,
)
    requires
        states.len() == texts.len() + 1,
        forall|i: int|
            0 <= i < texts.len() ==> notification_added(
                #[trigger] states[i],
                states[i + 1],
                texts[i].0,
                texts[i].1,
                texts[i].2,
                texts[i].3,
            ),
    ensures
        states.last().notification_counter == states[0].notification_counter + allowed_count(
            states.drop_last(),
        ),
        allowed_count(states.drop_last()) > 0 ==> states.last().notifications@.len() > 0
            && states.last().notifications@.last().id == states.last().notification_counter,
    decreases texts.len(),
{
    if texts.len() > 0 {
        let k = texts.len() - 1;
        let shorter = states.drop_last();
        assert forall|i: int| 0 <= i < texts.drop_last().len() implies notification_added(
            #[trigger] shorter[i],
            shorter[i + 1],
            texts.drop_last()[i].0,
            texts.drop_last()[i].1,
            texts.drop_last()[i].2,
            texts.drop_last()[i].3,
        ) by {
            assert(shorter[i] == states[i] && shorter[i + 1] == states[i + 1]);
            assert(notification_added(states[i], states[i + 1], texts[i].0, texts[i].1, texts[i].2, texts[i].3));
        }
        lemma_counter_counts_allowed_notifications(shorter, texts.drop_last());
        assert(shorter.drop_last() =~= states.drop_last().drop_last());
        assert(states.drop_last().last() == states[k]);
        assert(shorter.last() == states[k]);
        assert(notification_added(states[k], states[k + 1], texts[k].0, texts[k].1, texts[k].2, texts[k].3));
        assert(states.last() == states[k + 1]);
        assert(shorter[0] == states[0]);
    }
}

/// Records an incoming file offer under its transfer id.
pub fn add_file_transfer_request(state: &mut AppState, request: FileTransferRequest)
    requires
        old(state).wf(),
    ensures
        final(state).wf(),
        final(state).file_transfer_requests@ == old(state).file_transfer_requests@.insert(
            request.id@,
            request,
        ),
        *final(state) == (AppState {
            file_transfer_requests: final(state).file_transfer_requests,
            ..*old(state)
        }),
{
    let id = request.id.clone();
    state.file_transfer_requests.insert(id, request);
}

/// Takes a file offer out of the pending set.
pub fn remove_file_transfer_request(state: &mut AppState, id: &str) -> (r: Option<FileTransferRequest>)
    requires
        old(state).wf(),
    ensures
        final(state).wf(),
        final(state).file_transfer_requests@ == old(state).file_transfer_requests@.remove(id@),
        match r {
            Some(req) => old(state).file_transfer_requests@.contains_key(id@) && req
                == old(state).file_transfer_requests@[id@],
            None => !old(state).file_transfer_requests@.contains_key(id@),
        },
        *final(state) == (AppState {
            file_transfer_requests: final(state).file_transfer_requests,
            ..*old(state)
        }),
{
    state.file_transfer_requests.remove(id)
}

/// Whether a request made at `timestamp` is still pending at `now`; a
/// timestamp after `now` counts as no time elapsed.
pub open spec fn request_is_fresh(timestamp: u64, now: u64) -> bool {
    (if now >= timestamp {
        now - timestamp
    } else {
        0
    }) < TRANSFER_REQUEST_TIMEOUT_MS
}

/// Drops the file offers that have been pending for the timeout or longer.
pub fn cleanup_old_transfer_requests(state: &mut AppState, now: u64)
    requires
        old(state).wf(),
    ensures
        final(state).wf(),
        forall|k: Seq<char>|
            #[trigger] final(state).file_transfer_requests@.contains_key(k) <==> old(
                state,
            ).file_transfer_requests@.contains_key(k) && request_is_fresh(
                old(state).file_transfer_requests@[k].timestamp,
                now,
            ),
        forall|k: Seq<char>| #[trigger]
            final(state).file_transfer_requests@.contains_key(k)
                ==> final(state).file_transfer_requests@[k] == old(
                state,
            ).file_transfer_requests@[k],
        *final(state) == (AppState {
            file_transfer_requests: final(state).file_transfer_requests,
            ..*old(state)
        }),
{
    let keep = |_k: &String, r: &FileTransferRequest| -> (b: bool)
        ensures
            b == request_is_fresh(r.timestamp, now),
        { now.saturating_sub(r.timestamp) < TRANSFER_REQUEST_TIMEOUT_MS };
    state.file_transfer_requests.retain(
        keep,
        Ghost(|_k: Seq<char>, r: FileTransferRequest| request_is_fresh(r.timestamp, now)),
    );
}

/// The characters of an optional string.
pub open spec fn opt_view(o: Option<String>) -> Option<Seq<char>> {
    match o {
        Some(s) => Some(s@),
        None => None,
    }
}

fn option_string_same(a: &Option<String>, b: &Option<String>) -> (r: bool)
    ensures
        r == (opt_view(*a) == opt_view(*b)),
{
    match (a, b) {
        (Some(x), Some(y)) => *x == *y,
        (None, None) => true,
        _ => false,
    }
}

/// Whether choosing the phone `dev` changes the phone whose data is cached.
pub open spec fn device_changes(s: AppState, dev: Option<Seq<char>>) -> bool {
    opt_view(s.phone_data_device_id) != dev
}

/// What one call does to the contacts-synced flag: marking contacts synced
/// (`None`) sets it; choosing the phone `dev` (`Some(dev)`) clears it when
/// the phone changes and keeps it otherwise.
pub open spec fn contacts_call(before: AppState, after: AppState, op: Option<Option<Seq<char>>>) -> bool {
    match op {
        None => after.phone_sync.contacts_synced,
        Some(dev) => if device_changes(before, dev) {
            !after.phone_sync.contacts_synced
        } else {
            after.phone_sync.contacts_synced == before.phone_sync.contacts_synced
        },
    }
}

/// Whether call `j` of a run chose a different phone.
pub open spec fn changes_phone_at(states: Seq<AppState>, ops: Seq<Option<Option<Seq<char>>>>, j: int) -> bool {
    ops[j] matches Some(dev) && device_changes(states[j], dev)
}

/// Whether call `i` of the first `n` marked contacts synced and no later one
/// of them chose a different phone.
pub open spec fn mark_survives(states: Seq<AppState>, ops: Seq<Option<Option<Seq<char>>>>, i: int, n: int) -> bool {
    &&& ops[i] is None
    &&& forall|j: int| i < j < n ==> !#[trigger] changes_phone_at(states, ops, j)
}

/// Whether step `i` of the first `n` set the flag and no later one of them
/// cleared it.
spec fn set_survives(sets: Seq<bool>, clears: Seq<bool>, i: int, n: int) -> bool {
    &&& sets[i]
    &&& forall|j: int| i < j < n ==> !#[trigger] clears[j]
}

proof fn lemma_flag_since_last_clear(flags: Seq<bool>, sets: Seq<bool>, clears: Seq<bool>)
    requires
        flags.len() == sets.len() + 1,
        clears.len() == sets.len(),
        !flags[0],
        forall|i: int| 0 <= i < sets.len() ==> #[trigger] sets[i] ==> !clears[i] && flags[i + 1],
        forall|i: int| 0 <= i < sets.len() && !sets[i] && #[trigger] clears[i] ==> !flags[i + 1],
        forall|i: int| 0 <= i < sets.len() && !sets[i] && !clears[i] ==> #[trigger] flags[i + 1] == flags[i],
    ensures
        flags.last() <==> exists|i: int| 0 <= i < sets.len() && #[trigger] set_survives(sets, clears, i, sets.len() as int),
    decreases sets.len(),
{
    let n = sets.len() as int;
    if n > 0 {
        let fs = flags.drop_last();
        let ss = sets.drop_last();
        let cs = clears.drop_last();
        assert forall|i: int| 0 <= i < ss.len() implies #[trigger] ss[i] ==> !cs[i] && fs[i + 1] by {
            assert(sets[i] ==> !clears[i] && flags[i + 1]);
        }
        assert forall|i: int| 0 <= i < ss.len() && !ss[i] && #[trigger] cs[i] implies !fs[i + 1] by {
            assert(!sets[i] && clears[i] ==> !flags[i + 1]);
        }
        assert forall|i: int| 0 <= i < ss.len() && !ss[i] && !cs[i] implies #[trigger] fs[i + 1] == fs[i] by {
            assert(flags[i + 1] == flags[i]);
        }
        lemma_flag_since_last_clear(fs, ss, cs);
        assert(fs.last() == flags[n - 1]);
        assert(flags.last() == flags[n]);
        assert forall|i: int| 0 <= i < n - 1 implies #[trigger] set_survives(ss, cs, i, n - 1) == set_survives(
            sets,
            clears,
            i,
            n - 1,
        ) by {
            assert(ss[i] == sets[i]);
            assert forall|j: int| i < j < n - 1 implies #[trigger] cs[j] == clears[j] by {
                assert(cs[j] == clears[j]);
            }
            if set_survives(sets, clears, i, n - 1) {
                assert forall|j: int| i < j < n - 1 implies !#[trigger] cs[j] by {
                    assert(!clears[j]);
                }
            }
            if set_survives(ss, cs, i, n - 1) {
                assert forall|j: int| i < j < n - 1 implies !#[trigger] clears[j] by {
                    assert(!cs[j]);
                }
            }
        }
        if sets[n - 1] {
            assert(set_survives(sets, clears, n - 1, n));
        } else if clears[n - 1] {
            assert(!flags[n]);
            assert forall|i: int| 0 <= i < n implies !#[trigger] set_survives(sets, clears, i, n) by {
                if i < n - 1 {
                    assert(clears[n - 1]);
                }
            }
        } else {
            assert(flags[n] == flags[n - 1]);
            if flags.last() {
                let i = choose|i: int| 0 <= i < ss.len() && #[trigger] set_survives(ss, cs, i, ss.len() as int);
                assert(set_survives(sets, clears, i, n - 1));
                assert forall|j: int| i < j < n implies !#[trigger] clears[j] by {
                    if j < n - 1 {
                        assert(!clears[j]);
                    }
                }
                assert(set_survives(sets, clears, i, n));
            }
            if exists|i: int| 0 <= i < n && #[trigger] set_survives(sets, clears, i, n) {
                let i = choose|i: int| 0 <= i < n && #[trigger] set_survives(sets, clears, i, n);
                assert(i < n - 1);
                assert forall|j: int| i < j < n - 1 implies !#[trigger] clears[j] by {
                    assert(!clears[j]);
                }
                assert(set_survives(sets, clears, i, n - 1));
                assert(set_survives(ss, cs, i, n - 1));
            }
        }
    }
}

/// Over any run of calls that mark contacts synced or choose a phone
/// (`states[i + 1]` follows `states[i]` by `ops[i]`), starting with the
/// flag clear, contacts count as synced exactly when some call marked them
/// and no later call chose a different phone.
pub proof fn lemma_contacts_synced_since_phone_change(states: Seq<AppState>, ops: Seq<Option<Option<Seq<char>>>>)
    requires
        states.len() == ops.len() + 1,
        !states[0].phone_sync.contacts_synced,
        forall|i: int| 0 <= i < ops.len() ==> contacts_call(#[trigger] states[i], states[i + 1], ops[i]),
    ensures
        states.last().phone_sync.contacts_synced <==> exists|i: int|
            0 <= i < ops.len() && #[trigger] mark_survives(states, ops, i, ops.len() as int),
{
    let n = ops.len() as int;
    let flags = Seq::new(states.len(), |i: int| states[i].phone_sync.contacts_synced);
    let sets = Seq::new(ops.len(), |i: int| ops[i] is None);
    let clears = Seq::new(ops.len(), |i: int| changes_phone_at(states, ops, i));
    assert forall|i: int| 0 <= i < sets.len() implies #[trigger] sets[i] ==> !clears[i] && flags[i + 1] by {
        assert(contacts_call(states[i], states[i + 1], ops[i]));
    }
    assert forall|i: int| 0 <= i < sets.len() && !sets[i] && #[trigger] clears[i] implies !flags[i + 1] by {
        assert(contacts_call(states[i], states[i + 1], ops[i]));
    }
    assert forall|i: int| 0 <= i < sets.len() && !sets[i] && !clears[i] implies #[trigger] flags[i + 1] == flags[i] by {
        assert(contacts_call(states[i], states[i + 1], ops[i]));
    }
    lemma_flag_since_last_clear(flags, sets, clears);
    assert(flags.last() == states.last().phone_sync.contacts_synced);
    assert forall|i: int| 0 <= i < n implies #[trigger] mark_survives(states, ops, i, n) == set_survives(
        sets,
        clears,
        i,
        n,
    ) by {
        assert forall|j: int| i < j < n implies #[trigger] clears[j] == changes_phone_at(states, ops, j) by {}
        if set_survives(sets, clears, i, n) {
            assert forall|j: int| i < j < n implies !#[trigger] changes_phone_at(states, ops, j) by {
                assert(!clears[j]);
            }
        }
        if mark_survives(states, ops, i, n) {
            assert forall|j: int| i < j < n implies !#[trigger] clears[j] by {
                assert(!changes_phone_at(states, ops, j));
            }
        }
    }
    if states.last().phone_sync.contacts_synced {
        let i = choose|i: int| 0 <= i < n && #[trigger] set_survives(sets, clears, i, n);
        assert(mark_survives(states, ops, i, n));
    }
    if exists|i: int| 0 <= i < n && #[trigger] mark_survives(states, ops, i, n) {
        let i = choose|i: int| 0 <= i < n && #[trigger] mark_survives(states, ops, i, n);
        assert(set_survives(sets, clears, i, n));
    }
}

/// Switches the phone whose data is cached. When the phone changes, the
/// cached contacts, conversations, messages and call log and the sync flags
/// are cleared; when it is the same phone nothing changes.
pub fn set_phone_data_device(state: &mut AppState, device_id: Option<String>)
    requires
        old(state).wf(),
    ensures
        final(state).wf(),
        opt_view(old(state).phone_data_device_id) == opt_view(device_id) ==> *final(state) == *old(
            state,
        ),
        opt_view(old(state).phone_data_device_id) != opt_view(device_id) ==> {
            &&& final(state).phone_data_device_id == device_id
            &&& final(state).phone_sync == (PhoneSyncState {
                messages_synced: false,
                calls_synced: false,
                contacts_synced: false,
            })
            &&& final(state).phone_contacts@.len() == 0
            &&& final(state).phone_conversations@.len() == 0
            &&& final(state).phone_messages@ == Map::<Seq<char>, Vec<FfiSmsMessage>>::empty()
            &&& final(state).phone_call_log@.len() == 0
            &&& *final(state) == (AppState {
                phone_data_device_id: final(state).phone_data_device_id,
                phone_sync: final(state).phone_sync,
                phone_contacts: final(state).phone_contacts,
                phone_conversations: final(state).phone_conversations,
                phone_messages: final(state).phone_messages,
                phone_call_log: final(state).phone_call_log,
                ..*old(state)
            })
        },
        contacts_call(*old(state), *final(state), Some(opt_view(device_id))),
{
    if option_string_same(&state.phone_data_device_id, &device_id) {
        return;
    }
    state.phone_data_device_id = device_id;
    state.phone_sync = PhoneSyncState::default();
    state.phone_contacts = Vec::new();
    state.phone_conversations = Vec::new();
    state.phone_messages.clear();
    state.phone_call_log = Vec::new();
}

/// Records that messages have been fetched from the phone.
pub fn mark_messages_synced(state: &mut AppState)
    ensures
        *final(state) == (AppState {
            phone_sync: PhoneSyncState { messages_synced: true, ..old(state).phone_sync },
            ..*old(state)
        }),
{
    state.phone_sync.messages_synced = true;
}

/// Records that the call log has been fetched from the phone.
pub fn mark_calls_synced(state: &mut AppState)
    ensures
        *final(state) == (AppState {
            phone_sync: PhoneSyncState { calls_synced: true, ..old(state).phone_sync },
            ..*old(state)
        }),
{
    state.phone_sync.calls_synced = true;
}

/// Records that contacts have been fetched from the phone.
pub fn mark_contacts_synced(state: &mut AppState)
    ensures
        *final(state) == (AppState {
            phone_sync: PhoneSyncState { contacts_synced: true, ..old(state).phone_sync },
            ..*old(state)
        }),
        contacts_call(*old(state), *final(state), None),
{
    state.phone_sync.contacts_synced = true;
}

/// Whether messages have been fetched from the phone.
pub fn is_messages_synced(state: &AppState) -> (b: bool)
    ensures
        b == state.phone_sync.messages_synced,
{
    state.phone_sync.messages_synced
}

/// Whether the call log has been fetched from the phone.
pub fn is_calls_synced(state: &AppState) -> (b: bool)
    ensures
        b == state.phone_sync.calls_synced,
{
    state.phone_sync.calls_synced
}

/// Whether contacts have been fetched from the phone.
pub fn is_contacts_synced(state: &AppState) -> (b: bool)
    ensures
        b == state.phone_sync.contacts_synced,
{
    state.phone_sync.contacts_synced
}

/// Replaces the cached contacts.
pub fn set_phone_contacts(state: &mut AppState, contacts: Vec<FfiContact>, now: u64)
    ensures
        *final(state) == (AppState { phone_contacts: contacts, phone_data_update: now, ..*old(state) }),
{
    state.phone_contacts = contacts;
    state.phone_data_update = now;
}

/// Replaces the cached conversations.
pub fn set_phone_conversations(state: &mut AppState, conversations: Vec<FfiConversation>, now: u64)
    ensures
        *final(state) == (AppState {
            phone_conversations: conversations,
            phone_data_update: now,
            ..*old(state)
        }),
{
    state.phone_conversations = conversations;
    state.phone_data_update = now;
}

/// Replaces the cached messages of one thread.
pub fn set_phone_messages(state: &mut AppState, thread_id: String, messages: Vec<FfiSmsMessage>, now: u64)
    requires
        old(state).wf(),
    ensures
        final(state).wf(),
        final(state).phone_messages@ == old(state).phone_messages@.insert(thread_id@, messages),
        final(state).phone_data_update == now,
        *final(state) == (AppState {
            phone_messages: final(state).phone_messages,
            phone_data_update: now,
            ..*old(state)
        }),
{
    state.phone_messages.insert(thread_id, messages);
    state.phone_data_update = now;
}

/// Replaces the cached call log.
pub fn set_phone_call_log(state: &mut AppState, entries: Vec<FfiCallLogEntry>, now: u64)
    ensures
        *final(state) == (AppState { phone_call_log: entries, phone_data_update: now, ..*old(state) }),
{
    state.phone_call_log = entries;
    state.phone_data_update = now;
}

/// Records the call in progress, if any.
pub fn set_active_call(state: &mut AppState, call: Option<FfiActiveCall>, now: u64)
    ensures
        *final(state) == (AppState { active_call: call, phone_data_update: now, ..*old(state) }),
{
    state.active_call = call;
    state.phone_data_update = now;
}

/// The call in progress, if any.
pub fn get_active_call(state: &AppState) -> (c: &Option<FfiActiveCall>)
    ensures
        *c == state.active_call,
{
    &state.active_call
}

/// The cached contacts.
pub fn get_phone_contacts(state: &AppState) -> (v: &Vec<FfiContact>)
    ensures
        v@ == state.phone_contacts@,
{
    &state.phone_contacts
}

/// The cached conversations.
pub fn get_phone_conversations(state: &AppState) -> (v: &Vec<FfiConversation>)
    ensures
        v@ == state.phone_conversations@,
{
    &state.phone_conversations
}

/// The cached messages by thread id.
pub fn get_phone_messages(state: &AppState) -> (m: &StrMap<Vec<FfiSmsMessage>>)
    ensures
        m@ == state.phone_messages@,
{
    &state.phone_messages
}

/// The cached call log.
pub fn get_phone_call_log(state: &AppState) -> (v: &Vec<FfiCallLogEntry>)
    ensures
        v@ == state.phone_call_log@,
{
    &state.phone_call_log
}

/// What a phone's media player is playing, if anything was reported.
pub fn get_current_media(state: &AppState) -> (m: &Option<RemoteMedia>)
    ensures
        *m == state.current_media,
{
    &state.current_media
}

/// The listing of the remote folder being browsed, once it arrived.
pub fn get_current_remote_files(state: &AppState) -> (f: &Option<Vec<FsEntry>>)
    ensures
        *f == state.remote_files,
{
    &state.remote_files
}

} // verus!
