use connected::ffi::{
    ActiveCallState, CallType, FfiActiveCall, FfiConversation, FfiSmsMessage, MediaState, SmsStatus,
};
use connected::settings::{set_auto_sync_messages, AppSettings};
use connected::state::AppState;
use connected::telephony::{
    on_active_call_update, on_conversations_synced, on_messages_received, on_new_sms,
    on_remote_media_state, sort_newest_first,
};

fn convo(id: &str, address: &str, ts: u64, unread: u32) -> FfiConversation {
    FfiConversation {
        id: id.to_string(),
        addresses: vec![address.to_string()],
        contact_names: vec![],
        last_message: None,
        last_timestamp: ts,
        unread_count: unread,
    }
}

fn sms(thread: &str, address: &str, name: Option<&str>, body: &str, ts: u64) -> FfiSmsMessage {
    FfiSmsMessage {
        id: format!("m{}", ts),
        thread_id: thread.to_string(),
        address: address.to_string(),
        contact_name: name.map(|s| s.to_string()),
        body: body.to_string(),
        timestamp: ts,
        is_outgoing: false,
        is_read: false,
        status: SmsStatus::Received,
        attachments: vec![],
    }
}

fn ids(cs: &[FfiConversation]) -> Vec<&str> {
    cs.iter().map(|c| c.id.as_str()).collect()
}

#[test]
fn conversations_sort_newest_first_stably() {
    let sorted = sort_newest_first(vec![convo("a", "1", 5, 0), convo("b", "2", 9, 0), convo("c", "3", 5, 0), convo("d", "4", 1, 0)]);
    assert_eq!(ids(&sorted), vec!["b", "a", "c", "d"]);
}

#[test]
fn loading_a_thread_updates_its_conversation() {
    let mut st = AppState::new(AppSettings::default(), 0);
    on_conversations_synced(&mut st, vec![convo("t1", "+1 555", 10, 0), convo("t2", "+1 666", 20, 0)], 1);
    assert!(st.phone_sync.messages_synced);
    let msgs = vec![sms("t1", "+1 555", None, "old", 15), sms("t1", "+1 555", None, "new", 30), sms("t1", "+1 555", None, "same time", 30)];
    on_messages_received(&mut st, "t1".to_string(), msgs, 2);
    assert_eq!(ids(&st.phone_conversations), vec!["t1", "t2"]);
    assert_eq!(st.phone_conversations[0].last_message.as_deref(), Some("same time"));
    assert_eq!(st.phone_conversations[0].last_timestamp, 30);
    assert_eq!(st.phone_messages.get("t1").unwrap().len(), 3);
    on_messages_received(&mut st, "t9".to_string(), vec![], 3);
    assert_eq!(st.phone_messages.get("t9").unwrap().len(), 0);
}

#[test]
fn arriving_message_finds_its_conversation_by_number() {
    let mut st = AppState::new(AppSettings::default(), 0);
    on_conversations_synced(&mut st, vec![convo("t1", "+1 (555) 123", 10, 2), convo("t2", "999", 20, 0)], 1);
    let fetch = on_new_sms(&mut st, sms("other-id", "1555123", Some("Ann"), "hello", 40), 5);
    assert!(!fetch);
    assert_eq!(ids(&st.phone_conversations), vec!["t1", "t2"]);
    assert_eq!(st.phone_conversations[0].unread_count, 3);
    assert_eq!(st.phone_conversations[0].last_message.as_deref(), Some("hello"));
    assert_eq!(st.notifications[0].title, "New SMS");
    assert_eq!(st.notifications[0].message, "From Ann: hello");
    assert_eq!(st.phone_messages.get("other-id").unwrap().len(), 1);
}

#[test]
fn message_from_a_new_thread_starts_a_conversation() {
    let mut st = AppState::new(AppSettings::default(), 0);
    set_auto_sync_messages(&mut st.settings, true);
    on_conversations_synced(&mut st, vec![convo("t1", "111", 50, 0)], 1);
    let body = "x".repeat(60);
    let fetch = on_new_sms(&mut st, sms("t7", "222", None, &body, 10), 5);
    assert!(fetch);
    assert_eq!(ids(&st.phone_conversations), vec!["t1", "t7"]);
    let c = &st.phone_conversations[1];
    assert_eq!(c.addresses, vec!["222".to_string()]);
    assert!(c.contact_names.is_empty());
    assert_eq!(c.unread_count, 1);
    assert_eq!(st.notifications[0].message, format!("From 222: {}...", "x".repeat(50)));
}

fn call(state: ActiveCallState, incoming: bool) -> FfiActiveCall {
    FfiActiveCall {
        number: "555".to_string(),
        contact_name: if incoming { Some("Bob".to_string()) } else { None },
        state,
        duration: 42,
        is_incoming: incoming,
    }
}

#[test]
fn calls_are_announced_and_logged_when_they_end() {
    let mut st = AppState::new(AppSettings::default(), 0);
    on_active_call_update(&mut st, Some(call(ActiveCallState::Ringing, true)), 1_700_000_000_000, 1);
    assert_eq!(st.notifications[0].message, "Ringing call from Bob");
    on_active_call_update(&mut st, Some(call(ActiveCallState::OnHold, false)), 1_700_000_000_001, 2);
    assert_eq!(st.notifications[1].message, "OnHold call from 555");
    on_active_call_update(&mut st, Some(call(ActiveCallState::Ended, true)), 1_700_000_000_002, 3);
    assert_eq!(st.notifications.len(), 2);
    let e = &st.phone_call_log[0];
    assert_eq!(e.id, "call_1700000000002");
    assert_eq!(e.call_type, CallType::Incoming);
    assert_eq!(e.duration, 42);
    assert!(!e.is_read);
    assert!(st.active_call.is_some());
    on_active_call_update(&mut st, None, 1_700_000_000_003, 4);
    assert!(st.active_call.is_none());
    assert_eq!(st.phone_call_log.len(), 1);
}

#[test]
fn phone_media_is_recorded_only_when_enabled() {
    let mut st = AppState::new(AppSettings::default(), 0);
    let media = || MediaState { title: Some("Song".to_string()), artist: None, album: None, playing: true };
    assert!(on_remote_media_state(&mut st, "Phone", media()).is_none());
    assert!(st.current_media.is_none());
    st.media_enabled = true;
    let u = on_remote_media_state(&mut st, "Phone", media()).expect("published");
    assert_eq!(u.title.as_deref(), Some("Song"));
    assert_eq!(st.current_media.as_ref().unwrap().source_device_id, "unknown");
    assert_eq!(st.last_remote_media_device_id.as_deref(), Some("unknown"));
}
