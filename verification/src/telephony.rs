//! How the desktop application keeps the phone's data it shows: synced
//! contacts, conversations, messages and calls, messages that arrive while
//! it runs, the call in progress, and what the phone's media player plays.
//! Talking to the phone is the application's.

use vstd::prelude::*;
use crate::ffi::{ActiveCallState, CallType, FfiActiveCall, FfiCallLogEntry, FfiContact, FfiConversation, FfiSmsMessage, MediaState};
use crate::mpris::MprisUpdate;
use crate::state::{add_notification, mark_calls_synced, mark_contacts_synced, mark_messages_synced, notification_added, set_active_call, set_phone_call_log, set_phone_contacts, set_phone_conversations, set_phone_messages, AppState, DeviceInfo, PhoneSyncState, RemoteMedia};
use crate::strmap::StrMap;
use crate::text::{chars_of, dec, push_decimal, string_of};

verus! {

// ---------------------------------------------------------------------------
// Conversations, newest first
// ---------------------------------------------------------------------------

/// `x` placed into `s` after every trailing conversation that is not older
/// (one step of a stable sort, newest first).
pub open spec fn insert_conversation(s: Seq<FfiConversation>, x: FfiConversation) -> Seq<FfiConversation>
    decreases s.len(),
{
    if s.len() == 0 {
        seq![x]
    } else if s.last().last_timestamp < x.last_timestamp {
        insert_conversation(s.drop_last(), x).push(s.last())
    } else {
        s.push(x)
    }
}

/// The conversations newest first; conversations of the same time keep
/// their order (a stable sort by descending time).
pub open spec fn newest_first_spec(s: Seq<FfiConversation>) -> Seq<FfiConversation>
    decreases s.len(),
{
    if s.len() == 0 {
        seq![]
    } else {
        insert_conversation(newest_first_spec(s.drop_last()), s.last())
    }
}

/// No conversation is older than a later one.
pub open spec fn newest_first(s: Seq<FfiConversation>) -> bool {
    forall|i: int, j: int|
        0 <= i < j < s.len() ==> #[trigger] s[i].last_timestamp >= #[trigger] s[j].last_timestamp
}

proof fn lemma_insert_conversation(s: Seq<FfiConversation>, x: FfiConversation)
    requires
        newest_first(s),
    ensures
        newest_first(insert_conversation(s, x)),
        insert_conversation(s, x).to_multiset() == s.to_multiset().insert(x),
    decreases s.len(),
{
    broadcast use vstd::seq_lib::group_to_multiset_ensures;

    let r = insert_conversation(s, x);
    if s.len() == 0 {
        assert(s.push(x) == seq![x]);
    } else if s.last().last_timestamp < x.last_timestamp {
        let t = s.drop_last();
        let l = s.last();
        assert(newest_first(t)) by {
            assert forall|i: int, j: int| 0 <= i < j < t.len() implies #[trigger] t[i].last_timestamp
                >= #[trigger] t[j].last_timestamp by {
                assert(t[i] == s[i] && t[j] == s[j]);
            }
        }
        lemma_insert_conversation(t, x);
        let u = insert_conversation(t, x);
        assert(s == t.push(l));
        assert forall|k: int| 0 <= k < u.len() implies (#[trigger] u[k]).last_timestamp
            >= l.last_timestamp by {
            assert(u.to_multiset().count(u[k]) > 0);
            assert(t.to_multiset().insert(x).count(u[k]) > 0);
            if u[k] != x {
                assert(t.to_multiset().count(u[k]) > 0);
                assert(t.contains(u[k]));
                let m = choose|m: int| 0 <= m < t.len() && t[m] == u[k];
                assert(s[m] == t[m] && s[s.len() - 1] == l);
            }
        }
        assert forall|i: int, j: int| 0 <= i < j < r.len() implies #[trigger] r[i].last_timestamp
            >= #[trigger] r[j].last_timestamp by {
            assert(r == u.push(l));
            if j < u.len() {
                assert(r[i] == u[i] && r[j] == u[j]);
            } else {
                assert(r[i] == u[i] && r[j] == l);
            }
        }
    } else {
        let l = s.last();
        assert forall|i: int, j: int| 0 <= i < j < r.len() implies #[trigger] r[i].last_timestamp
            >= #[trigger] r[j].last_timestamp by {
            assert(r == s.push(x));
            if j < s.len() {
                assert(r[i] == s[i] && r[j] == s[j]);
            } else if i == s.len() - 1 {
                assert(r[i] == l && r[j] == x);
            } else {
                assert(r[i] == s[i] && r[j] == x);
                assert(s[i].last_timestamp >= s[s.len() - 1].last_timestamp);
            }
        }
    }
}

/// Sorting puts the conversations newest first and keeps exactly the same
/// conversations.
pub proof fn lemma_newest_first(s: Seq<FfiConversation>)
    ensures
        newest_first(newest_first_spec(s)),
        newest_first_spec(s).to_multiset() == s.to_multiset(),
    decreases s.len(),
{
    broadcast use vstd::seq_lib::group_to_multiset_ensures;

    if s.len() > 0 {
        lemma_newest_first(s.drop_last());
        lemma_insert_conversation(newest_first_spec(s.drop_last()), s.last());
        assert(s == s.drop_last().push(s.last()));
    }
}

fn insert_conversation_exec(v: &mut Vec<FfiConversation>, x: FfiConversation)
    ensures
        final(v)@ == insert_conversation(old(v)@, x),
{
    let ghost s = v@;
    let mut j = v.len();
    assert(s.take(j as int) == s && s.skip(j as int) =~= Seq::<FfiConversation>::empty());
    while j > 0 && v[j - 1].last_timestamp < x.last_timestamp
        invariant
            0 <= j <= s.len(),
            v@ == s,
            insert_conversation(s, x) == insert_conversation(s.take(j as int), x) + s.skip(j as int),
        decreases j,
    {
        let ghost t = s.take(j as int);
        assert(t.drop_last() == s.take(j - 1));
        assert(t.last() == s[j - 1]);
        assert(s.skip(j - 1) == seq![s[j - 1]] + s.skip(j as int));
        j = j - 1;
    }
    proof {
        let t = s.take(j as int);
        if j > 0 {
            assert(t.last() == s[j - 1]);
        }
        assert(insert_conversation(t, x) == t.push(x));
    }
    v.insert(j, x);
    assert(v@ =~= s.take(j as int).push(x) + s.skip(j as int));
}

/// Sorts conversations newest first, keeping the order of those of the
/// same time.
pub fn sort_newest_first(v: Vec<FfiConversation>) -> (r: Vec<FfiConversation>)
    ensures
        r@ == newest_first_spec(v@),
{
    let mut rest = v;
    let ghost s = rest@;
    let n = rest.len();
    let mut rev: Vec<FfiConversation> = Vec::new();
    while rest.len() > 0
        invariant
            n == s.len(),
            rev@.len() + rest@.len() == n,
            rest@ == s.take(rest@.len() as int),
            forall|k: int| 0 <= k < rev@.len() ==> #[trigger] rev@[k] == s[n - 1 - k],
        decreases rest@.len(),
    {
        let e = rest.pop().unwrap();
        rev.push(e);
    }
    let mut out: Vec<FfiConversation> = Vec::new();
    let mut i: usize = 0;
    while rev.len() > 0
        invariant
            n == s.len(),
            rev@.len() + i == n,
            forall|k: int| 0 <= k < rev@.len() ==> #[trigger] rev@[k] == s[n - 1 - k],
            out@ == newest_first_spec(s.take(i as int)),
        decreases rev@.len(),
    {
        let e = rev.pop().unwrap();
        assert(e == s[i as int]);
        assert(s.take(i + 1).drop_last() == s.take(i as int));
        insert_conversation_exec(&mut out, e);
        i = i + 1;
    }
    assert(s.take(n as int) == s);
    out
}


// ---------------------------------------------------------------------------
// Synced data
// ---------------------------------------------------------------------------

/// The phone sent its contacts: they replace the cached ones, and contacts
/// count as synced.
pub fn on_contacts_synced(state: &mut AppState, contacts: Vec<FfiContact>, now: u64)
    ensures
        *final(state) == (AppState {
            phone_contacts: contacts,
            phone_data_update: now,
            phone_sync: PhoneSyncState { contacts_synced: true, ..old(state).phone_sync },
            ..*old(state)
        }),
{
    set_phone_contacts(state, contacts, now);
    mark_contacts_synced(state);
}

/// The phone sent its conversations: they replace the cached ones, and
/// messages count as synced.
pub fn on_conversations_synced(state: &mut AppState, conversations: Vec<FfiConversation>, now: u64)
    ensures
        *final(state) == (AppState {
            phone_conversations: conversations,
            phone_data_update: now,
            phone_sync: PhoneSyncState { messages_synced: true, ..old(state).phone_sync },
            ..*old(state)
        }),
{
    set_phone_conversations(state, conversations, now);
    mark_messages_synced(state);
}

/// The phone sent its call log: it replaces the cached one, and calls count
/// as synced.
pub fn on_call_log_synced(state: &mut AppState, entries: Vec<FfiCallLogEntry>, now: u64)
    ensures
        *final(state) == (AppState {
            phone_call_log: entries,
            phone_data_update: now,
            phone_sync: PhoneSyncState { calls_synced: true, ..old(state).phone_sync },
            ..*old(state)
        }),
{
    set_phone_call_log(state, entries, now);
    mark_calls_synced(state);
}

// ---------------------------------------------------------------------------
// Messages of a thread
// ---------------------------------------------------------------------------

/// The index of the newest message; the last one among equally new ones.
pub open spec fn newest_message(ms: Seq<FfiSmsMessage>) -> Option<int>
    decreases ms.len(),
{
    if ms.len() == 0 {
        None
    } else {
        match newest_message(ms.drop_last()) {
            None => Some(ms.len() - 1),
            Some(i) => if ms.last().timestamp >= ms[i].timestamp {
                Some(ms.len() - 1)
            } else {
                Some(i)
            },
        }
    }
}

proof fn lemma_newest_message_range(ms: Seq<FfiSmsMessage>)
    ensures
        newest_message(ms) matches Some(i) ==> 0 <= i < ms.len(),
        ms.len() > 0 ==> newest_message(ms) is Some,
    decreases ms.len(),
{
    if ms.len() > 0 {
        lemma_newest_message_range(ms.drop_last());
    }
}

/// The index of the first conversation with the given id.
pub open spec fn first_with_id(cs: Seq<FfiConversation>, id: Seq<char>) -> Option<int>
    decreases cs.len(),
{
    if cs.len() == 0 {
        None
    } else if cs[0].id@ == id {
        Some(0)
    } else {
        match first_with_id(cs.drop_first(), id) {
            Some(i) => Some(i + 1),
            None => None,
        }
    }
}

/// The conversation with its last message set from `m`.
pub open spec fn with_last_message(c: FfiConversation, m: FfiSmsMessage) -> FfiConversation {
    FfiConversation { last_message: Some(m.body), last_timestamp: m.timestamp, ..c }
}

/// The conversations after the messages of a thread arrived: when there is
/// a message, the thread's conversation shows the newest one, and the list
/// is put newest first.
pub open spec fn conversations_after_messages(
    cs: Seq<FfiConversation>,
    thread_id: Seq<char>,
    ms: Seq<FfiSmsMessage>,
) -> Seq<FfiConversation> {
    match newest_message(ms) {
        None => cs,
        Some(k) => newest_first_spec(
            match first_with_id(cs, thread_id) {
                Some(i) => cs.update(i, with_last_message(cs[i], ms[k])),
                None => cs,
            },
        ),
    }
}

fn newest_message_index(ms: &Vec<FfiSmsMessage>) -> (r: Option<usize>)
    ensures
        match newest_message(ms@) {
            Some(i) => (r matches Some(j) && j == i) && 0 <= i < ms@.len(),
            None => r is None,
        },
{
    let mut best: Option<usize> = None;
    let mut i: usize = 0;
    assert(ms@.take(0) =~= Seq::<FfiSmsMessage>::empty());
    while i < ms.len()
        invariant
            0 <= i <= ms@.len(),
            match newest_message(ms@.take(i as int)) {
                Some(b) => (best matches Some(j) && j == b) && 0 <= b < i,
                None => best is None && i == 0,
            },
        decreases ms@.len() - i,
    {
        let ghost t = ms@.take(i + 1);
        assert(t.drop_last() =~= ms@.take(i as int));
        assert(t.last() == ms@[i as int]);
        match best {
            None => {
                best = Some(i);
            },
            Some(b) => {
                assert(t[b as int] == ms@[b as int]);
                if ms[i].timestamp >= ms[b].timestamp {
                    best = Some(i);
                }
            },
        }
        i = i + 1;
    }
    assert(ms@.take(ms@.len() as int) =~= ms@);
    best
}

fn first_conversation_with_id(cs: &Vec<FfiConversation>, id: &String) -> (r: Option<usize>)
    ensures
        match first_with_id(cs@, id@) {
            Some(i) => (r matches Some(j) && j == i) && 0 <= i < cs@.len(),
            None => r is None,
        },
{
    let mut i: usize = 0;
    assert(cs@.skip(0) =~= cs@);
    while i < cs.len()
        invariant
            0 <= i <= cs@.len(),
            first_with_id(cs@, id@) == (match first_with_id(cs@.skip(i as int), id@) {
                Some(j) => Some(j + i),
                None => None::<int>,
            }),
        decreases cs@.len() - i,
    {
        assert(cs@.skip(i as int).drop_first() =~= cs@.skip(i + 1));
        assert(cs@.skip(i as int)[0] == cs@[i as int]);
        if cs[i].id == *id {
            return Some(i);
        }
        i = i + 1;
    }
    assert(cs@.skip(i as int) =~= Seq::<FfiConversation>::empty());
    None
}

/// The messages of a thread arrived: they replace the thread's cached
/// messages, and when there is one, the thread's conversation shows the
/// newest and the conversations are put newest first.
pub fn on_messages_received(
    state: &mut AppState,
    thread_id: String,
    messages: Vec<FfiSmsMessage>,
    now: u64,
)
    requires
        old(state).wf(),
    ensures
        final(state).wf(),
        final(state).phone_conversations@ == conversations_after_messages(
            old(state).phone_conversations@,
            thread_id@,
            messages@,
        ),
        final(state).phone_messages@ == old(state).phone_messages@.insert(thread_id@, messages),
        *final(state) == (AppState {
            phone_conversations: final(state).phone_conversations,
            phone_messages: final(state).phone_messages,
            phone_data_update: now,
            ..*old(state)
        }),
{
    if let Some(k) = newest_message_index(&messages) {
        let mut convos = Vec::new();
        std::mem::swap(&mut convos, &mut state.phone_conversations);
        let ghost cs = convos@;
        let ghost target = match first_with_id(cs, thread_id@) {
            Some(i) => cs.update(i, with_last_message(cs[i], messages@[k as int])),
            None => cs,
        };
        match first_conversation_with_id(&convos, &thread_id) {
            Some(i) => {
                let c = convos.remove(i);
                let updated = FfiConversation {
                    last_message: Some(messages[k].body.clone()),
                    last_timestamp: messages[k].timestamp,
                    ..c
                };
                convos.insert(i, updated);
                assert(convos@ =~= cs.update(i as int, with_last_message(cs[i as int], messages@[k as int])));
            },
            None => {},
        }
        assert(convos@ == target);
        state.phone_conversations = sort_newest_first(convos);
    }
    set_phone_messages(state, thread_id, messages, now);
}


// ---------------------------------------------------------------------------
// A message that arrives
// ---------------------------------------------------------------------------

/// The ASCII digits of a text, in order (how phone numbers are compared).
pub open spec fn digits_of(s: Seq<char>) -> Seq<char>
    decreases s.len(),
{
    if s.len() == 0 {
        seq![]
    } else if '0' <= s.last() && s.last() <= '9' {
        digits_of(s.drop_last()).push(s.last())
    } else {
        digits_of(s.drop_last())
    }
}

fn digits_of_exec(s: &String) -> (r: Vec<char>)
    ensures
        r@ == digits_of(s@),
{
    let cs = chars_of(s.as_str());
    let mut r: Vec<char> = Vec::new();
    let mut i: usize = 0;
    while i < cs.len()
        invariant
            0 <= i <= cs@.len(),
            cs@ == s@,
            r@ == digits_of(cs@.take(i as int)),
        decreases cs@.len() - i,
    {
        assert(cs@.take(i + 1).drop_last() =~= cs@.take(i as int));
        assert(cs@.take(i + 1).last() == cs@[i as int]);
        if '0' <= cs[i] && cs[i] <= '9' {
            r.push(cs[i]);
        }
        i = i + 1;
    }
    assert(cs@.take(cs@.len() as int) =~= cs@);
    r
}

/// Whether a conversation is the one of an arriving message: the same
/// thread, or an address with the same digits as the sender's.
pub open spec fn conversation_of(c: FfiConversation, m: FfiSmsMessage) -> bool {
    ||| c.id@ == m.thread_id@
    ||| exists|j: int| 0 <= j < c.addresses@.len() && digits_of(#[trigger] c.addresses@[j]@) == digits_of(m.address@)
}

/// The index of the first conversation of the message.
pub open spec fn first_conversation_of(cs: Seq<FfiConversation>, m: FfiSmsMessage) -> Option<int>
    decreases cs.len(),
{
    if cs.len() == 0 {
        None
    } else if conversation_of(cs[0], m) {
        Some(0)
    } else {
        match first_conversation_of(cs.drop_first(), m) {
            Some(i) => Some(i + 1),
            None => None,
        }
    }
}

/// The conversation with the message as its newest, one more unread.
pub open spec fn with_new_message(c: FfiConversation, m: FfiSmsMessage) -> FfiConversation {
    FfiConversation {
        last_message: Some(m.body),
        last_timestamp: m.timestamp,
        unread_count: (c.unread_count + 1) as u32,
        ..c
    }
}

/// The conversation started by a message from a new thread.
pub open spec fn is_new_conversation(c: FfiConversation, m: FfiSmsMessage) -> bool {
    &&& c.id@ == m.thread_id@
    &&& c.addresses@.len() == 1 && c.addresses@[0]@ == m.address@
    &&& match m.contact_name {
        Some(n) => c.contact_names@.len() == 1 && c.contact_names@[0]@ == n@,
        None => c.contact_names@.len() == 0,
    }
    &&& c.last_message matches Some(b) && b@ == m.body@
    &&& c.last_timestamp == m.timestamp
    &&& c.unread_count == 1
}

/// How the conversations change when `m` arrives: its conversation shows it
/// with one more unread, or a new conversation starts; newest first.
pub open spec fn conversations_after_sms(
    before: Seq<FfiConversation>,
    after: Seq<FfiConversation>,
    m: FfiSmsMessage,
) -> bool {
    match first_conversation_of(before, m) {
        Some(i) => after == newest_first_spec(before.update(i, with_new_message(before[i], m))),
        None => exists|c: FfiConversation|
            is_new_conversation(c, m) && after == newest_first_spec(before.push(c)),
    }
}

/// The unread count of the conversation an arriving message updates can
/// still grow.
pub open spec fn unread_can_grow(cs: Seq<FfiConversation>, m: FfiSmsMessage) -> bool {
    first_conversation_of(cs, m) matches Some(i) ==> cs[i].unread_count < u32::MAX
}

/// The first `n` characters of a text, followed by "..." when it is longer.
pub open spec fn char_preview(text: Seq<char>, n: nat) -> Seq<char> {
    if text.len() > n {
        text.take(n as int) + "..."@
    } else {
        text
    }
}

/// Who sent a message: the contact's name, else the number.
pub open spec fn sender_of(m: FfiSmsMessage) -> Seq<char> {
    match m.contact_name {
        Some(n) => n@,
        None => m.address@,
    }
}

/// "From <sender>: <first 50 characters>".
pub open spec fn new_sms_message(m: FfiSmsMessage) -> Seq<char> {
    "From "@ + sender_of(m) + ": "@ + char_preview(m.body@, 50)
}

fn conversation_of_exec(c: &FfiConversation, m: &FfiSmsMessage, sender_digits: &Vec<char>) -> (b: bool)
    requires
        sender_digits@ == digits_of(m.address@),
    ensures
        b == conversation_of(*c, *m),
{
    if c.id == m.thread_id {
        return true;
    }
    let mut j: usize = 0;
    while j < c.addresses.len()
        invariant
            0 <= j <= c.addresses@.len(),
            sender_digits@ == digits_of(m.address@),
            forall|k: int| 0 <= k < j ==> digits_of(#[trigger] c.addresses@[k]@) != digits_of(m.address@),
        decreases c.addresses@.len() - j,
    {
        let d = digits_of_exec(&c.addresses[j]);
        if same_chars(&d, sender_digits) {
            return true;
        }
        j = j + 1;
    }
    false
}

fn same_chars(a: &Vec<char>, b: &Vec<char>) -> (r: bool)
    ensures
        r == (a@ == b@),
{
    if a.len() != b.len() {
        return false;
    }
    let mut i: usize = 0;
    while i < a.len()
        invariant
            0 <= i <= a@.len() == b@.len(),
            forall|k: int| 0 <= k < i ==> a@[k] == b@[k],
        decreases a@.len() - i,
    {
        if a[i] != b[i] {
            return false;
        }
        i = i + 1;
    }
    assert(a@ =~= b@);
    true
}

fn first_conversation_of_exec(cs: &Vec<FfiConversation>, m: &FfiSmsMessage) -> (r: Option<usize>)
    ensures
        match first_conversation_of(cs@, *m) {
            Some(i) => (r matches Some(j) && j == i) && 0 <= i < cs@.len(),
            None => r is None,
        },
{
    let sender_digits = digits_of_exec(&m.address);
    let mut i: usize = 0;
    assert(cs@.skip(0) =~= cs@);
    while i < cs.len()
        invariant
            0 <= i <= cs@.len(),
            sender_digits@ == digits_of(m.address@),
            first_conversation_of(cs@, *m) == (match first_conversation_of(cs@.skip(i as int), *m) {
                Some(j) => Some(j + i),
                None => None::<int>,
            }),
        decreases cs@.len() - i,
    {
        assert(cs@.skip(i as int).drop_first() =~= cs@.skip(i + 1));
        assert(cs@.skip(i as int)[0] == cs@[i as int]);
        if conversation_of_exec(&cs[i], m, &sender_digits) {
            return Some(i);
        }
        i = i + 1;
    }
    assert(cs@.skip(i as int) =~= Seq::<FfiConversation>::empty());
    None
}

fn preview_of_body(body: &String) -> (p: String)
    ensures
        p@ == char_preview(body@, 50),
{
    let cs = chars_of(body.as_str());
    if cs.len() > 50 {
        let mut p = string_of(&cs[0..50]);
        assert(cs@.subrange(0, 50) =~= cs@.take(50));
        p.append("...");
        p
    } else {
        body.clone()
    }
}

/// A message arrived: it joins its thread's cached messages, its
/// conversation shows it (or a new conversation starts), the conversations
/// are put newest first, and the user is told who wrote what. The result
/// says whether the whole thread is to be fetched again (the setting to
/// sync messages automatically).
pub fn on_new_sms(state: &mut AppState, message: FfiSmsMessage, now: u64) -> (fetch: bool)
    requires
        old(state).wf(),
        old(state).notification_counter < u64::MAX,
        unread_can_grow(old(state).phone_conversations@, message),
    ensures
        final(state).wf(),
        fetch == old(state).settings.auto_sync_messages,
        final(state).phone_messages@.dom() == old(state).phone_messages@.dom().insert(message.thread_id@),
        final(state).phone_messages@[message.thread_id@]@ == (if old(state).phone_messages@.contains_key(
            message.thread_id@,
        ) {
            old(state).phone_messages@[message.thread_id@]@
        } else {
            seq![]
        }).push(message),
        forall|k: Seq<char>|
            #[trigger] old(state).phone_messages@.contains_key(k) && k != message.thread_id@
                ==> final(state).phone_messages@[k] == old(state).phone_messages@[k],
        conversations_after_sms(old(state).phone_conversations@, final(state).phone_conversations@, message),
        notification_added(
            *old(state),
            *final(state),
            "New SMS"@,
            new_sms_message(message),
            ""@,
            now,
        ),
        *final(state) == (AppState {
            phone_messages: final(state).phone_messages,
            phone_conversations: final(state).phone_conversations,
            phone_data_update: now,
            notifications: final(state).notifications,
            notification_counter: final(state).notification_counter,
            ..*old(state)
        }),
{
    // The conversations.
    let mut convos = Vec::new();
    std::mem::swap(&mut convos, &mut state.phone_conversations);
    let ghost cs = convos@;
    match first_conversation_of_exec(&convos, &message) {
        Some(i) => {
            let c = convos.remove(i);
            let updated = FfiConversation {
                last_message: Some(message.body.clone()),
                last_timestamp: message.timestamp,
                unread_count: c.unread_count + 1,
                ..c
            };
            convos.insert(i, updated);
            assert(convos@ =~= cs.update(i as int, with_new_message(cs[i as int], message)));
        },
        None => {
            let mut addresses = Vec::new();
            addresses.push(message.address.clone());
            let mut contact_names = Vec::new();
            if let Some(n) = &message.contact_name {
                contact_names.push(n.clone());
            }
            let c = FfiConversation {
                id: message.thread_id.clone(),
                addresses,
                contact_names,
                last_message: Some(message.body.clone()),
                last_timestamp: message.timestamp,
                unread_count: 1,
            };
            assert(is_new_conversation(c, message));
            convos.push(c);
        },
    }
    state.phone_conversations = sort_newest_first(convos);
    state.phone_data_update = now;
    // The notification.
    let mut text = String::from_str("From ");
    match &message.contact_name {
        Some(n) => text.append(n.as_str()),
        None => text.append(message.address.as_str()),
    }
    text.append(": ");
    let preview = preview_of_body(&message.body);
    text.append(preview.as_str());
    add_notification(state, "New SMS", text.as_str(), "", now);
    // The thread's messages.
    let thread_id = message.thread_id.clone();
    let mut thread = match state.phone_messages.remove(thread_id.as_str()) {
        Some(v) => v,
        None => Vec::new(),
    };
    thread.push(message);
    state.phone_messages.insert(thread_id, thread);
    state.settings.auto_sync_messages
}


// ---------------------------------------------------------------------------
// The call in progress
// ---------------------------------------------------------------------------

/// The name of a call state as shown to the user.
pub open spec fn call_state_name(s: ActiveCallState) -> Seq<char> {
    match s {
        ActiveCallState::Ringing => "Ringing"@,
        ActiveCallState::Dialing => "Dialing"@,
        ActiveCallState::Connected => "Connected"@,
        ActiveCallState::OnHold => "OnHold"@,
        ActiveCallState::Ended => "Ended"@,
    }
}

fn call_state_text(s: ActiveCallState) -> (t: &'static str)
    ensures
        t@ == call_state_name(s),
{
    match s {
        ActiveCallState::Ringing => "Ringing",
        ActiveCallState::Dialing => "Dialing",
        ActiveCallState::Connected => "Connected",
        ActiveCallState::OnHold => "OnHold",
        ActiveCallState::Ended => "Ended",
    }
}

/// Who the call is with: the contact's name, else the number.
pub open spec fn caller_of(c: FfiActiveCall) -> Seq<char> {
    match c.contact_name {
        Some(n) => n@,
        None => c.number@,
    }
}

/// "<state> call from <caller>".
pub open spec fn call_message(c: FfiActiveCall) -> Seq<char> {
    call_state_name(c.state) + " call from "@ + caller_of(c)
}

/// The call-log entry written when a call ends at `epoch_ms`
/// (milliseconds since the epoch): id `call_<epoch_ms>`, incoming or
/// outgoing, unread.
pub open spec fn ended_call_entry(e: FfiCallLogEntry, c: FfiActiveCall, epoch_ms: u64) -> bool {
    &&& e.id@ == "call_"@ + dec(epoch_ms as nat)
    &&& e.number == c.number
    &&& e.contact_name == c.contact_name
    &&& e.call_type == (if c.is_incoming {
        CallType::Incoming
    } else {
        CallType::Outgoing
    })
    &&& e.timestamp == epoch_ms
    &&& e.duration == c.duration
    &&& !e.is_read
}

/// The phone reported the call in progress (none when there is no call):
/// an ended call goes to the front of the call log, any other state is told
/// to the user; the call is recorded either way.
pub fn on_active_call_update(state: &mut AppState, call: Option<FfiActiveCall>, epoch_ms: u64, now: u64)
    requires
        old(state).wf(),
        old(state).notification_counter < u64::MAX,
    ensures
        final(state).wf(),
        final(state).active_call == call,
        final(state).phone_data_update == now,
        match call {
            Some(c) => if c.state == ActiveCallState::Ended {
                &&& final(state).phone_call_log@.len() == old(state).phone_call_log@.len() + 1
                &&& ended_call_entry(final(state).phone_call_log@[0], c, epoch_ms)
                &&& final(state).phone_call_log@.drop_first() == old(state).phone_call_log@
                &&& final(state).notifications == old(state).notifications
                &&& final(state).notification_counter == old(state).notification_counter
            } else {
                &&& final(state).phone_call_log == old(state).phone_call_log
                &&& notification_added(*old(state), *final(state), "Phone Call"@, call_message(c), ""@, now)
            },
            None => {
                &&& final(state).phone_call_log == old(state).phone_call_log
                &&& final(state).notifications == old(state).notifications
                &&& final(state).notification_counter == old(state).notification_counter
            },
        },
        *final(state) == (AppState {
            phone_call_log: final(state).phone_call_log,
            active_call: call,
            phone_data_update: now,
            notifications: final(state).notifications,
            notification_counter: final(state).notification_counter,
            ..*old(state)
        }),
{
    if let Some(c) = &call {
        if c.state == ActiveCallState::Ended {
            let mut id = String::from_str("call_");
            push_decimal(&mut id, epoch_ms);
            let contact_name = match &c.contact_name {
                Some(n) => Some(n.clone()),
                None => None,
            };
            let entry = FfiCallLogEntry {
                id,
                number: c.number.clone(),
                contact_name,
                call_type: if c.is_incoming {
                    CallType::Incoming
                } else {
                    CallType::Outgoing
                },
                timestamp: epoch_ms,
                duration: c.duration,
                is_read: false,
            };
            let ghost before = state.phone_call_log@;
            state.phone_call_log.insert(0, entry);
            assert(state.phone_call_log@.drop_first() =~= before);
        } else {
            let mut text = String::from_str(call_state_text(c.state));
            text.append(" call from ");
            match &c.contact_name {
                Some(n) => text.append(n.as_str()),
                None => text.append(c.number.as_str()),
            }
            add_notification(state, "Phone Call", text.as_str(), "", now);
        }
    }
    set_active_call(state, call, now);
}

// ---------------------------------------------------------------------------
// The phone's media player
// ---------------------------------------------------------------------------

/// Whether some shown device has the name.
pub open spec fn has_device_named(m: Map<Seq<char>, DeviceInfo>, name: Seq<char>) -> bool {
    exists|k: Seq<char>| #[trigger] m.contains_key(k) && m[k].name@ == name
}

fn device_id_by_name(devices: &StrMap<DeviceInfo>, name: &str) -> (r: String)
    requires
        devices.wf(),
    ensures
        has_device_named(devices@, name@) ==> devices@.contains_key(r@) && devices@[r@].name@ == name@,
        !has_device_named(devices@, name@) ==> r@ == "unknown"@,
{
    let target = String::from_str(name);
    let mut i: usize = 0;
    proof {
        devices.lemma_pairs();
    }
    while i < devices.len()
        invariant
            0 <= i <= devices.pairs().len(),
            devices.wf(),
            target@ == name@,
            forall|k: int| 0 <= k < i ==> (#[trigger] devices.pairs()[k]).1.name@ != name@,
        decreases devices.pairs().len() - i,
    {
        let d = devices.value_at(i);
        if d.name == target {
            let k = devices.key_at(i);
            proof {
                devices.lemma_pairs();
            }
            return k.clone();
        }
        i = i + 1;
    }
    proof {
        devices.lemma_pairs();
        if has_device_named(devices@, name@) {
            let k = choose|k: Seq<char>| #[trigger] devices@.contains_key(k) && devices@[k].name@ == name@;
            let j = choose|j: int| 0 <= j < devices.pairs().len() && #[trigger] devices.pairs()[j].0 == k;
            assert(devices.pairs()[j].1.name@ != name@);
            assert(devices@[devices.pairs()[j].0] == devices.pairs()[j].1);
        }
    }
    String::from_str("unknown")
}


fn copy_media_state(m: &MediaState) -> (r: MediaState)
    ensures
        r == *m,
{
    MediaState {
        title: match &m.title {
            Some(t) => Some(t.clone()),
            None => None,
        },
        artist: match &m.artist {
            Some(t) => Some(t.clone()),
            None => None,
        },
        album: match &m.album {
            Some(t) => Some(t.clone()),
            None => None,
        },
        playing: m.playing,
    }
}

/// The phone's media player reported what it plays, via the device named
/// `from_device`. Ignored while media control is off; otherwise it is
/// recorded with the id of a shown device of that name ("unknown" when
/// there is none), and the update for the desktop media-player service is
/// returned.
pub fn on_remote_media_state(state: &mut AppState, from_device: &str, media: MediaState) -> (r: Option<MprisUpdate>)
    requires
        old(state).wf(),
    ensures
        !old(state).media_enabled ==> r is None && *final(state) == *old(state),
        old(state).media_enabled ==> ({
            &&& r == Some(MprisUpdate { title: media.title, artist: media.artist, album: media.album, playing: media.playing })
            &&& final(state).current_media matches Some(rm) && rm.state == media
                && final(state).last_remote_media_device_id == Some(rm.source_device_id)
                && (has_device_named(old(state).devices@, from_device@) ==> old(state).devices@.contains_key(rm.source_device_id@)
                    && old(state).devices@[rm.source_device_id@].name@ == from_device@)
                && (!has_device_named(old(state).devices@, from_device@) ==> rm.source_device_id@ == "unknown"@)
            &&& *final(state) == (AppState {
                current_media: final(state).current_media,
                last_remote_media_device_id: final(state).last_remote_media_device_id,
                ..*old(state)
            })
        }),
{
    if !state.media_enabled {
        return None;
    }
    let device_id = device_id_by_name(&state.devices, from_device);
    state.last_remote_media_device_id = Some(device_id.clone());
    let shown = copy_media_state(&media);
    state.current_media = Some(RemoteMedia { state: shown, source_device_id: device_id });
    Some(MprisUpdate { title: media.title, artist: media.artist, album: media.album, playing: media.playing })
}



proof fn lemma_first_with_id_range(cs: Seq<FfiConversation>, id: Seq<char>)
    ensures
        first_with_id(cs, id) matches Some(i) ==> 0 <= i < cs.len(),
    decreases cs.len(),
{
    if cs.len() > 0 {
        lemma_first_with_id_range(cs.drop_first(), id);
    }
}

proof fn lemma_first_conversation_range(cs: Seq<FfiConversation>, m: FfiSmsMessage)
    ensures
        first_conversation_of(cs, m) matches Some(i) ==> 0 <= i < cs.len(),
    decreases cs.len(),
{
    if cs.len() > 0 {
        lemma_first_conversation_range(cs.drop_first(), m);
    }
}

/// After a message arrives the conversations are newest first; the
/// message's conversation is kept when there is one (the list keeps its
/// length), else exactly one conversation is added.
pub proof fn lemma_sms_keeps_conversations_newest_first(
    before: Seq<FfiConversation>,
    after: Seq<FfiConversation>,
    m: FfiSmsMessage,
)
    requires
        conversations_after_sms(before, after, m),
    ensures
        newest_first(after),
        first_conversation_of(before, m) is Some ==> after.len() == before.len(),
        first_conversation_of(before, m) is None ==> after.len() == before.len() + 1,
{
    broadcast use vstd::seq_lib::group_to_multiset_ensures;

    lemma_first_conversation_range(before, m);
    match first_conversation_of(before, m) {
        Some(i) => {
            let u = before.update(i, with_new_message(before[i], m));
            lemma_newest_first(u);
            assert(after.to_multiset().len() == u.to_multiset().len());
        },
        None => {
            let c = choose|c: FfiConversation|
                is_new_conversation(c, m) && after == newest_first_spec(before.push(c));
            lemma_newest_first(before.push(c));
            assert(after.to_multiset().len() == before.push(c).to_multiset().len());
        },
    }
}

/// After the messages of a thread arrive (at least one), the conversations
/// are newest first and none is lost or added.
pub proof fn lemma_thread_load_keeps_conversations_newest_first(
    cs: Seq<FfiConversation>,
    thread_id: Seq<char>,
    ms: Seq<FfiSmsMessage>,
)
    requires
        ms.len() > 0,
    ensures
        newest_first(conversations_after_messages(cs, thread_id, ms)),
        conversations_after_messages(cs, thread_id, ms).len() == cs.len(),
{
    broadcast use vstd::seq_lib::group_to_multiset_ensures;

    lemma_newest_message_range(ms);
    lemma_first_with_id_range(cs, thread_id);
    let k = newest_message(ms)->0;
    let u = match first_with_id(cs, thread_id) {
        Some(i) => cs.update(i, with_last_message(cs[i], ms[k])),
        None => cs,
    };
    lemma_newest_first(u);
    assert(newest_first_spec(u).to_multiset().len() == u.to_multiset().len());
}

} // verus!
