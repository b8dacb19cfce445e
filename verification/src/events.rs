//! How the desktop application reacts to the events of the connection
//! core: which devices it shows and remembers, which failed transfers it
//! retries when their device comes back, and how it reads transfer errors.
//! Receiving the events and carrying out transfers is the application's.

use vstd::prelude::*;
use crate::ffi::DiscoveredDevice;
use crate::filesystem::{contains_chars, contains_text, lowercase, to_lowercase};
use crate::settings::{save_device_to_settings, AppSettings, SavedDeviceInfo};
use crate::settings::remove_device_from_settings;
use crate::state::{keyed_by_id, add_notification, device_info_of, notification_added, AppState, DeviceInfo, PairingRequest};
use crate::strmap::StrMap;
use crate::text::chars_of;

verus! {

/// The address under which an offline device is kept.
pub open spec fn offline_ip() -> Seq<char> {
    "0.0.0.0"@
}

/// What is stored for a found device, with its trust as the core reports it.
pub open spec fn found_info(d: DiscoveredDevice, trusted: bool) -> DeviceInfo {
    DeviceInfo { is_trusted: trusted, ..device_info_of(d) }
}

/// What is remembered of a trusted device.
pub open spec fn saved_info(d: DiscoveredDevice) -> SavedDeviceInfo {
    SavedDeviceInfo { name: d.name, ip: d.ip, port: d.port, device_type: d.device_type }
}

/// A device was found, `trusted` when the core trusts it: a trusted device
/// is no longer awaiting pairing and, when it has a real address, is
/// remembered; the device is shown under its id.
pub fn on_device_found(state: &mut AppState, device: DiscoveredDevice, trusted: bool)
    requires
        old(state).wf(),
    ensures
        final(state).wf(),
        final(state).devices@ == old(state).devices@.insert(device.id@, found_info(device, trusted)),
        trusted ==> final(state).pending_pairings@ == old(state).pending_pairings@.remove(device.id@),
        !trusted ==> final(state).pending_pairings@ == old(state).pending_pairings@,
        trusted && device.ip@ != offline_ip() ==> final(state).settings.saved_devices@ == old(
            state,
        ).settings.saved_devices@.insert(device.id@, saved_info(device)),
        !(trusted && device.ip@ != offline_ip()) ==> final(state).settings.saved_devices@ == old(
            state,
        ).settings.saved_devices@,
        final(state).settings.notifications_enabled == old(state).settings.notifications_enabled,
        final(state).settings.clipboard_sync_enabled == old(state).settings.clipboard_sync_enabled,
        final(state).notifications == old(state).notifications,
        final(state).notification_counter == old(state).notification_counter,
        final(state).last_clipboard == old(state).last_clipboard,
        final(state).last_remote_clipboard_content == old(state).last_remote_clipboard_content,
        final(state).settings == (AppSettings {
            saved_devices: final(state).settings.saved_devices,
            ..old(state).settings
        }),
        *final(state) == (AppState {
            devices: final(state).devices,
            pending_pairings: final(state).pending_pairings,
            settings: final(state).settings,
            ..*old(state)
        }),
{
    let offline = String::from_str("0.0.0.0");
    let remember = trusted && !(device.ip == offline);
    if remember {
        let saved = SavedDeviceInfo {
            name: device.name.clone(),
            ip: device.ip.clone(),
            port: device.port,
            device_type: device.device_type.clone(),
        };
        save_device_to_settings(&mut state.settings, device.id.clone(), saved);
    }
    if trusted {
        let _ = state.pending_pairings.remove(device.id.as_str());
    }
    let id = device.id.clone();
    let mut info = DeviceInfo::from(device);
    info.is_trusted = trusted;
    let ghost before = state.devices@;
    state.devices.insert(id, info);
    proof {
        let m = state.devices@;
        assert forall|k: Seq<char>| #[trigger] m.contains_key(k) implies m[k].id@ == k by {
            if k != device.id@ {
                assert(before.contains_key(k));
            }
        }
    }
}

/// `a` is `b` kept as offline.
pub open spec fn kept_offline(a: DeviceInfo, b: DeviceInfo) -> bool {
    &&& a.ip@ == offline_ip()
    &&& a.id == b.id
    &&& a.name == b.name
    &&& a.port == b.port
    &&& a.device_type == b.device_type
    &&& a.is_trusted == b.is_trusted
    &&& a.is_pending == b.is_pending
}

/// The devices shown after the device `id` was lost.
pub open spec fn after_lost(before: Map<Seq<char>, DeviceInfo>, after: Map<Seq<char>, DeviceInfo>, id: Seq<char>) -> bool {
    if !before.contains_key(id) {
        after == before
    } else if before[id].is_trusted {
        &&& after.dom() == before.dom()
        &&& kept_offline(after[id], before[id])
        &&& forall|k: Seq<char>| #[trigger] before.contains_key(k) && k != id ==> after[k] == before[k]
    } else {
        after == before.remove(id)
    }
}

/// A device was lost: a trusted device stays shown as offline, another one
/// is dropped.
pub fn on_device_lost(state: &mut AppState, device_id: &str)
    requires
        old(state).wf(),
    ensures
        final(state).wf(),
        after_lost(old(state).devices@, final(state).devices@, device_id@),
        *final(state) == (AppState { devices: final(state).devices, ..*old(state) }),
{
    let ghost before = state.devices@;
    let removed = state.devices.remove(device_id);
    match removed {
        Some(mut device) => {
            if device.is_trusted {
                device.ip = String::from_str("0.0.0.0");
                let id = device.id.clone();
                state.devices.insert(id, device);
                proof {
                    let m = state.devices@;
                    assert(before[device_id@].id@ == device_id@);
                    assert(m.dom() =~= before.dom());
                    assert forall|k: Seq<char>| #[trigger] m.contains_key(k) implies m[k].id@ == k by {
                        if k != device_id@ {
                            assert(before.contains_key(k));
                        }
                    }
                }
            }
        },
        None => {
            assert(state.devices@ =~= before);
        },
    }
}

/// Outgoing files whose transfer broke off with the connection, by the
/// address of the device they were meant for.
pub struct RetryQueue {
    pub by_ip: StrMap<Vec<String>>,
}

/// The files to send again to a device that came back at `ip`: those queued
/// for it, then those queued without an address.
pub open spec fn retry_paths(m: Map<Seq<char>, Vec<String>>, ip: Seq<char>) -> Seq<String> {
    let by_ip = if m.contains_key(ip) {
        m[ip]@
    } else {
        seq![]
    };
    let rest = m.remove(ip);
    let fallback = if rest.contains_key(offline_ip()) {
        rest[offline_ip()]@
    } else {
        seq![]
    };
    by_ip + fallback
}

impl RetryQueue {
    /// Nothing queued.
    pub fn new() -> (q: Self)
        ensures
            q.by_ip.wf(),
            q.by_ip@ == Map::<Seq<char>, Vec<String>>::empty(),
    {
        RetryQueue { by_ip: StrMap::new() }
    }

    /// Queues a file whose transfer broke off; the device's address is not
    /// known any more, so it waits under the offline address.
    pub fn queue(&mut self, path: String)
        requires
            old(self).by_ip.wf(),
        ensures
            final(self).by_ip.wf(),
            final(self).by_ip@.dom() == old(self).by_ip@.dom().insert(offline_ip()),
            final(self).by_ip@[offline_ip()]@ == (if old(self).by_ip@.contains_key(offline_ip()) {
                old(self).by_ip@[offline_ip()]@
            } else {
                seq![]
            }).push(path),
            forall|k: Seq<char>|
                #[trigger] old(self).by_ip@.contains_key(k) && k != offline_ip() ==> final(self).by_ip@[k]
                    == old(self).by_ip@[k],
    {
        let key = String::from_str("0.0.0.0");
        let mut list = match self.by_ip.remove(key.as_str()) {
            Some(v) => v,
            None => Vec::new(),
        };
        list.push(path);
        self.by_ip.insert(key, list);
    }

    /// Takes out the files to send again to a device that came back at `ip`.
    pub fn take_for(&mut self, ip: &str) -> (r: Vec<String>)
        requires
            old(self).by_ip.wf(),
        ensures
            final(self).by_ip.wf(),
            r@ == retry_paths(old(self).by_ip@, ip@),
            final(self).by_ip@ == old(self).by_ip@.remove(ip@).remove(offline_ip()),
    {
        let mut r = match self.by_ip.remove(ip) {
            Some(v) => v,
            None => Vec::new(),
        };
        let mut fallback = match self.by_ip.remove("0.0.0.0") {
            Some(v) => v,
            None => Vec::new(),
        };
        r.append(&mut fallback);
        r
    }
}

/// Whether the text, ASCII letters lowercased, mentions a cancellation.
pub open spec fn is_cancelled_spec(error: Seq<char>) -> bool {
    contains_text(ascii_lower(error), "cancelled"@) || contains_text(ascii_lower(error), "canceled"@)
}

/// The character with an ASCII capital replaced by its small letter.
pub open spec fn ascii_lower_char(c: char) -> char {
    if 'A' <= c && c <= 'Z' {
        ((c as u32) + 32) as char
    } else {
        c
    }
}

/// The text with ASCII capitals replaced by small letters (as
/// `str::to_ascii_lowercase`).
pub open spec fn ascii_lower(s: Seq<char>) -> Seq<char> {
    s.map_values(|c: char| ascii_lower_char(c))
}

pub(crate) fn ascii_lower_chars(s: &str) -> (v: Vec<char>)
    ensures
        v@ == ascii_lower(s@),
{
    let cs = chars_of(s);
    let mut v: Vec<char> = Vec::new();
    let mut i: usize = 0;
    while i < cs.len()
        invariant
            0 <= i <= cs@.len(),
            cs@ == s@,
            v@ == ascii_lower(cs@.take(i as int)),
        decreases cs@.len() - i,
    {
        let c = cs[i];
        let l = if 'A' <= c && c <= 'Z' {
            let u: u32 = (c as u32) + 32;
            let b: u8 = u as u8;
            b as char
        } else {
            c
        };
        v.push(l);
        assert(ascii_lower(cs@.take(i + 1)) =~= ascii_lower(cs@.take(i as int)).push(
            ascii_lower_char(cs@[i as int]),
        ));
        i = i + 1;
    }
    assert(cs@.take(cs@.len() as int) =~= cs@);
    v
}

/// Whether a transfer error means that the transfer was cancelled.
pub fn is_cancelled_error(error: &str) -> (b: bool)
    ensures
        b == is_cancelled_spec(error@),
        b == names_cancellation(error@),
{
    let lower = ascii_lower_chars(error);
    let a = chars_of("cancelled");
    let b = chars_of("canceled");
    contains_chars(lower.as_slice(), a.as_slice()) || contains_chars(lower.as_slice(), b.as_slice())
}

/// Whether a transfer error, lowercased, tells of a broken connection.
pub open spec fn is_connection_error_spec(error: Seq<char>) -> bool {
    let l = lowercase(error);
    ||| contains_text(l, "timeout"@)
    ||| contains_text(l, "eof"@)
    ||| contains_text(l, "connection"@)
    ||| contains_text(l, "reset"@)
    ||| contains_text(l, "refused"@)
    ||| contains_text(l, "unreachable"@)
    ||| contains_text(l, "aborted"@)
}

/// Whether `word` stands somewhere in `text`.
pub open spec fn mentions(text: Seq<char>, word: Seq<char>) -> bool {
    exists|i: int| 0 <= i && i + word.len() <= text.len() && #[trigger] text.subrange(i, i + word.len()) == word
}

/// Whether the lowercased error text names one of the connection failures:
/// timeout, eof, connection, reset, refused, unreachable or aborted.
pub open spec fn names_connection_failure(error: Seq<char>) -> bool {
    let l = lowercase(error);
    ||| mentions(l, "timeout"@)
    ||| mentions(l, "eof"@)
    ||| mentions(l, "connection"@)
    ||| mentions(l, "reset"@)
    ||| mentions(l, "refused"@)
    ||| mentions(l, "unreachable"@)
    ||| mentions(l, "aborted"@)
}

/// Whether the error text, with ASCII capitals made small, says the
/// transfer was cancelled or canceled.
pub open spec fn names_cancellation(error: Seq<char>) -> bool {
    mentions(ascii_lower(error), "cancelled"@) || mentions(ascii_lower(error), "canceled"@)
}

/// An outgoing transfer that failed is queued again exactly when its error
/// does not say it was cancelled and, lowercased, contains one of timeout,
/// eof, connection, reset, refused, unreachable, aborted; an incoming one
/// never is.
pub proof fn lemma_retry_on_connection_words(was_outgoing: bool, error: Seq<char>)
    ensures
        is_connection_error_spec(error) == names_connection_failure(error),
        is_cancelled_spec(error) == names_cancellation(error),
        should_retry_spec(was_outgoing, error) == (was_outgoing && !names_cancellation(error)
            && names_connection_failure(error)),
{
}

/// Whether a transfer error tells of a broken connection.
pub fn is_connection_error(error: &str) -> (b: bool)
    ensures
        b == is_connection_error_spec(error@),
        b == names_connection_failure(error@),
{
    let lower = to_lowercase(error);
    let l = chars_of(lower.as_str());
    let words = [
        chars_of("timeout"),
        chars_of("eof"),
        chars_of("connection"),
        chars_of("reset"),
        chars_of("refused"),
        chars_of("unreachable"),
        chars_of("aborted"),
    ];
    contains_chars(l.as_slice(), words[0].as_slice()) || contains_chars(l.as_slice(), words[1].as_slice())
        || contains_chars(l.as_slice(), words[2].as_slice()) || contains_chars(l.as_slice(), words[3].as_slice())
        || contains_chars(l.as_slice(), words[4].as_slice()) || contains_chars(l.as_slice(), words[5].as_slice())
        || contains_chars(l.as_slice(), words[6].as_slice())
}

/// Whether a failed transfer is queued to be sent again when its device
/// comes back: it was outgoing, not cancelled, and the connection broke.
pub open spec fn should_retry_spec(was_outgoing: bool, error: Seq<char>) -> bool {
    was_outgoing && !is_cancelled_spec(error) && is_connection_error_spec(error)
}

/// Whether a failed transfer is queued to be sent again.
pub fn should_retry(was_outgoing: bool, error: &str) -> (b: bool)
    ensures
        b == should_retry_spec(was_outgoing, error@),
        b == (was_outgoing && !names_cancellation(error@) && names_connection_failure(error@)),
{
    was_outgoing && !is_cancelled_error(error) && is_connection_error(error)
}


/// How long after text arrived from a device the local clipboard is left
/// alone, in milliseconds.
pub const REMOTE_ECHO_WINDOW_MS: u64 = 1000;

/// How often the local clipboard is looked at, in milliseconds.
pub const CLIPBOARD_POLL_MS: u64 = 500;

/// Milliseconds from `since` to `now`, none when `now` is earlier.
pub open spec fn elapsed_ms(now: u64, since: u64) -> nat {
    if now >= since {
        (now - since) as nat
    } else {
        0
    }
}

/// Whether a poll at `now` looks at the local clipboard: syncing is on and
/// no text arrived from a device in the last second.
pub open spec fn should_read_clipboard_spec(s: AppState, now: u64) -> bool {
    s.settings.clipboard_sync_enabled && elapsed_ms(now, s.last_remote_update)
        >= REMOTE_ECHO_WINDOW_MS
}

/// Whether a poll at `now` looks at the local clipboard.
pub fn should_read_clipboard(state: &AppState, now: u64) -> (b: bool)
    ensures
        b == should_read_clipboard_spec(*state, now),
{
    let elapsed: u64 = if now >= state.last_remote_update {
        now - state.last_remote_update
    } else {
        0
    };
    state.settings.clipboard_sync_enabled && elapsed >= REMOTE_ECHO_WINDOW_MS
}

/// Whether the local clipboard holds new text to send to the devices: not
/// empty, not what was last seen, and not what last came from a device.
pub open spec fn is_local_change(s: AppState, current: Seq<char>) -> bool {
    current.len() > 0 && current != s.last_clipboard@ && current != s.last_remote_clipboard_content@
}

/// Looks at the text read from the local clipboard: when it is new, it
/// becomes the last seen text and `true` says to send it to the devices.
pub fn take_local_clipboard(state: &mut AppState, current: String) -> (b: bool)
    ensures
        b == is_local_change(*old(state), current@),
        b ==> *final(state) == (AppState { last_clipboard: current, ..*old(state) }),
        !b ==> *final(state) == *old(state),
{
    if current.as_str().is_empty() {
        return false;
    }
    if current == state.last_clipboard || current == state.last_remote_clipboard_content {
        return false;
    }
    state.last_clipboard = current;
    true
}

/// Text arrived from a device: it becomes both the last seen and the last
/// received text, the time is noted, and the user is told where it came
/// from. (Placing it on the system clipboard is the application's.)
pub fn on_remote_clipboard(state: &mut AppState, content: String, from_device: &str, now: u64)
    requires
        old(state).wf(),
        old(state).notification_counter < u64::MAX,
    ensures
        final(state).wf(),
        final(state).last_clipboard@ == content@,
        final(state).last_remote_clipboard_content@ == content@,
        final(state).last_remote_update == now,
        notification_added(
            *old(state),
            *final(state),
            "Clipboard"@,
            "Received from "@ + from_device@,
            ""@,
            now,
        ),
        *final(state) == (AppState {
            last_clipboard: final(state).last_clipboard,
            last_remote_clipboard_content: final(state).last_remote_clipboard_content,
            last_remote_update: now,
            notifications: final(state).notifications,
            notification_counter: final(state).notification_counter,
            ..*old(state)
        }),
{
    state.last_clipboard = content.clone();
    state.last_remote_clipboard_content = content;
    state.last_remote_update = now;
    let mut msg = String::from_str("Received from ");
    msg.append(from_device);
    add_notification(state, "Clipboard", msg.as_str(), "", now);
}

/// What is done with a pairing request.
#[derive(Clone, Copy, Debug, PartialEq, Eq, Structural)]
pub enum PairingDecision {
    /// Pairing mode is off and the device is not trusted: refuse it.
    AutoReject,
    /// The device is already trusted: confirm the trust at once.
    AutoAccept,
    /// A request with the same fingerprint is already waiting.
    Duplicate,
    /// The request now waits for the user's answer.
    Queued,
}

/// Whether a waiting request carries the fingerprint.
pub open spec fn has_request_with(rs: Seq<PairingRequest>, fingerprint: Seq<char>) -> bool {
    exists|i: int| 0 <= i < rs.len() && (#[trigger] rs[i]).fingerprint@ == fingerprint
}

/// The decision on a pairing request, `trusted` when the core already
/// trusts the device.
pub open spec fn pairing_decision_spec(s: AppState, trusted: bool, fingerprint: Seq<char>) -> PairingDecision {
    if !s.pairing_mode && !trusted {
        PairingDecision::AutoReject
    } else if trusted {
        PairingDecision::AutoAccept
    } else if has_request_with(s.pairing_requests@, fingerprint) {
        PairingDecision::Duplicate
    } else {
        PairingDecision::Queued
    }
}

/// A device asks to pair: refused while pairing mode is off (unless
/// trusted), confirmed when trusted, else queued once per fingerprint.
pub fn on_pairing_request(
    state: &mut AppState,
    trusted: bool,
    device_name: String,
    fingerprint: String,
    device_id: String,
) -> (d: PairingDecision)
    ensures
        d == pairing_decision_spec(*old(state), trusted, fingerprint@),
        d == PairingDecision::Queued ==> final(state).pairing_requests@ == old(state).pairing_requests@.push(
            PairingRequest { fingerprint, device_name, device_id },
        ),
        d == PairingDecision::Queued ==> *final(state) == (AppState {
            pairing_requests: final(state).pairing_requests,
            ..*old(state)
        }),
        d != PairingDecision::Queued ==> *final(state) == *old(state),
{
    if !state.pairing_mode && !trusted {
        return PairingDecision::AutoReject;
    }
    if trusted {
        return PairingDecision::AutoAccept;
    }
    let mut i: usize = 0;
    while i < state.pairing_requests.len()
        invariant
            0 <= i <= state.pairing_requests@.len(),
            *state == *old(state),
            state.pairing_mode || trusted,
            !trusted,
            forall|k: int| 0 <= k < i ==> (#[trigger] state.pairing_requests@[k]).fingerprint@ != fingerprint@,
        decreases state.pairing_requests@.len() - i,
    {
        if state.pairing_requests[i].fingerprint == fingerprint {
            assert(has_request_with(state.pairing_requests@, fingerprint@));
            return PairingDecision::Duplicate;
        }
        i = i + 1;
    }
    state.pairing_requests.push(PairingRequest { fingerprint, device_name, device_id });
    PairingDecision::Queued
}

/// The waiting requests of other devices.
pub open spec fn requests_without(rs: Seq<PairingRequest>, device_id: Seq<char>) -> Seq<PairingRequest> {
    rs.filter(|r: PairingRequest| r.device_id@ != device_id)
}

/// A device turned pairing down: the user is told, and nothing of that
/// device waits any more.
pub fn on_pairing_rejected(
    state: &mut AppState,
    device_name: &str,
    device_id: &str,
    reason: &str,
    now: u64,
)
    requires
        old(state).wf(),
        old(state).notification_counter < u64::MAX,
    ensures
        final(state).wf(),
        notification_added(
            *old(state),
            *final(state),
            "Pairing Update"@,
            "Pairing "@ + reason@ + " by "@ + device_name@,
            ""@,
            now,
        ),
        final(state).pending_pairings@ == old(state).pending_pairings@.remove(device_id@),
        final(state).pairing_requests@ == requests_without(old(state).pairing_requests@, device_id@),
        *final(state) == (AppState {
            notifications: final(state).notifications,
            notification_counter: final(state).notification_counter,
            pending_pairings: final(state).pending_pairings,
            pairing_requests: final(state).pairing_requests,
            ..*old(state)
        }),
{
    let mut msg = String::from_str("Pairing ");
    msg.append(reason);
    msg.append(" by ");
    msg.append(device_name);
    add_notification(state, "Pairing Update", msg.as_str(), "", now);
    let _ = state.pending_pairings.remove(device_id);
    let ghost rs = state.pairing_requests@;
    let target = String::from_str(device_id);
    let mut kept: Vec<PairingRequest> = Vec::new();
    assert(rs.take(0) =~= Seq::<PairingRequest>::empty());
    proof {
        reveal_with_fuel(Seq::filter, 1);
    }
    let mut i: usize = 0;
    while i < state.pairing_requests.len()
        invariant
            0 <= i <= rs.len(),
            state.pairing_requests@ == rs,
            target@ == device_id@,
            kept@ == requests_without(rs.take(i as int), device_id@),
        decreases rs.len() - i,
    {
        assert(rs.take(i + 1).drop_last() =~= rs.take(i as int));
        assert(rs.take(i + 1).last() == rs[i as int]);
        proof {
            reveal_with_fuel(Seq::filter, 1);
        }
        let r = &state.pairing_requests[i];
        let keep = !(r.device_id == target);
        if keep {
            kept.push(
                PairingRequest {
                    fingerprint: r.fingerprint.clone(),
                    device_name: r.device_name.clone(),
                    device_id: r.device_id.clone(),
                },
            );
        }
        i = i + 1;
    }
    assert(rs.take(rs.len() as int) =~= rs);
    state.pairing_requests = kept;
}

/// The shown devices after a device unpaired: it is kept, no longer
/// trusted, while it is still discovered, and dropped otherwise.
pub open spec fn devices_after_unpair(
    m: Map<Seq<char>, DeviceInfo>,
    id: Seq<char>,
    still_discovered: bool,
) -> Map<Seq<char>, DeviceInfo> {
    if !still_discovered {
        m.remove(id)
    } else if m.contains_key(id) {
        m.insert(id, DeviceInfo { is_trusted: false, ..m[id] })
    } else {
        m
    }
}

fn untrust_shown_device(devices: &mut StrMap<DeviceInfo>, device_id: &str, still_discovered: bool)
    requires
        old(devices).wf(),
        keyed_by_id(old(devices)@),
    ensures
        final(devices).wf(),
        keyed_by_id(final(devices)@),
        final(devices)@ == devices_after_unpair(old(devices)@, device_id@, still_discovered),
{
    let ghost before = devices@;
    if let Some(mut d) = devices.remove(device_id) {
        d.is_trusted = false;
        let id = d.id.clone();
        devices.insert(id, d);
        proof {
            let m = devices@;
            assert(before[device_id@].id@ == device_id@);
            assert(m =~= before.insert(device_id@, DeviceInfo { is_trusted: false, ..before[device_id@] }));
            assert forall|k: Seq<char>| #[trigger] m.contains_key(k) implies m[k].id@ == k by {
                if k != device_id@ {
                    assert(before.contains_key(k));
                }
            }
        }
    } else {
        assert(devices@ =~= before);
    }
    if !still_discovered {
        let _ = devices.remove(device_id);
        assert(devices@ =~= before.remove(device_id@));
    }
}

/// A device unpaired from this one: it is no longer trusted nor remembered,
/// it leaves the list unless it is still discovered, and the user is told.
pub fn on_device_unpaired(
    state: &mut AppState,
    device_id: &str,
    device_name: &str,
    still_discovered: bool,
    now: u64,
)
    requires
        old(state).wf(),
        old(state).notification_counter < u64::MAX,
    ensures
        final(state).wf(),
        final(state).settings.saved_devices@ == old(state).settings.saved_devices@.remove(device_id@),
        !still_discovered ==> final(state).devices@ == old(state).devices@.remove(device_id@),
        still_discovered && old(state).devices@.contains_key(device_id@) ==> final(state).devices@
            == old(state).devices@.insert(
            device_id@,
            DeviceInfo { is_trusted: false, ..old(state).devices@[device_id@] },
        ),
        still_discovered && !old(state).devices@.contains_key(device_id@) ==> final(state).devices@
            == old(state).devices@,
        notification_added(
            *old(state),
            *final(state),
            "Device Disconnected"@,
            "You were unpaired from "@ + device_name@,
            ""@,
            now,
        ),
        final(state).settings == (AppSettings {
            saved_devices: final(state).settings.saved_devices,
            ..old(state).settings
        }),
        *final(state) == (AppState {
            devices: final(state).devices,
            settings: final(state).settings,
            notifications: final(state).notifications,
            notification_counter: final(state).notification_counter,
            ..*old(state)
        }),
{
    untrust_shown_device(&mut state.devices, device_id, still_discovered);
    remove_device_from_settings(&mut state.settings, device_id);
    let mut msg = String::from_str("You were unpaired from ");
    msg.append(device_name);
    add_notification(state, "Device Disconnected", msg.as_str(), "", now);
}


/// Text that arrived from a device is not sent back: it is not a local
/// change, and for a second after it arrived the clipboard is not read.
pub proof fn lemma_remote_clipboard_not_echoed(after: AppState, content: Seq<char>, now: u64)
    requires
        after.last_clipboard@ == content,
        after.last_remote_clipboard_content@ == content,
        after.last_remote_update == now,
    ensures
        !is_local_change(after, content),
        forall|t: u64| now <= t < now + REMOTE_ECHO_WINDOW_MS ==> !#[trigger] should_read_clipboard_spec(after, t),
{
}

/// Local text is sent once: after it was taken, the same text is no
/// longer a change.
pub proof fn lemma_local_clipboard_sent_once(s: AppState, current: String)
    requires
        is_local_change(s, current@),
    ensures
        !is_local_change(AppState { last_clipboard: current, ..s }, current@),
{
}

/// A pairing request is queued once: once a request with a fingerprint
/// waits, another request with that fingerprint from an untrusted device is
/// a duplicate (or refused, when pairing mode was turned off).
pub proof fn lemma_pairing_request_queued_once(after: AppState, r: PairingRequest)
    requires
        exists|i: int| 0 <= i < after.pairing_requests@.len() && #[trigger] after.pairing_requests@[i] == r,
    ensures
        pairing_decision_spec(after, false, r.fingerprint@) == PairingDecision::Duplicate
            || pairing_decision_spec(after, false, r.fingerprint@) == PairingDecision::AutoReject,
{
    let i = choose|i: int| 0 <= i < after.pairing_requests@.len() && #[trigger] after.pairing_requests@[i] == r;
    assert(has_request_with(after.pairing_requests@, r.fingerprint@));
}

/// A file queued for sending again is handed back when any device comes
/// back.
pub proof fn lemma_queued_file_is_retried(m: Map<Seq<char>, Vec<String>>, ip: Seq<char>)
    requires
        m.contains_key(offline_ip()),
    ensures
        forall|j: int| 0 <= j < m[offline_ip()]@.len() ==> retry_paths(m, ip).contains(
            #[trigger] m[offline_ip()]@[j],
        ),
{
    assert forall|j: int| 0 <= j < m[offline_ip()]@.len() implies retry_paths(m, ip).contains(
        #[trigger] m[offline_ip()]@[j],
    ) by {
        let by_ip = if m.contains_key(ip) {
            m[ip]@
        } else {
            seq![]
        };
        if ip == offline_ip() {
            assert(retry_paths(m, ip)[j] == m[offline_ip()]@[j]);
        } else {
            assert(m.remove(ip).contains_key(offline_ip()));
            assert(retry_paths(m, ip)[by_ip.len() + j] == m[offline_ip()]@[j]);
        }
    }
}

} // verus!
