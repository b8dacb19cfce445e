use connected::events::RetryQueue;
use connected::settings::AppSettings;
use connected::state::{AppState, FileTransferRequest};
use connected::transfers::{on_transfer_offer, OfferOutcome, TransferPart, TransferPhase, TransferTracker};

fn fresh_state() -> AppState {
    AppState::new(AppSettings::default(), 0)
}

#[test]
fn single_transfer_course() {
    let mut st = fresh_state();
    let mut t = TransferTracker::new();
    match t.on_transfer_starting(&mut st, "t1".to_string(), "a.zip".to_string(), true, 100, 1) {
        TransferPhase::Starting { filename } => assert_eq!(filename, "a.zip"),
        other => panic!("unexpected {:?}", other),
    }
    assert_eq!(st.notifications[0].message, "Receiving a.zip");
    assert_eq!(t.active_incoming.as_deref(), Some("t1"));
    match t.on_transfer_progress("t1", 40, 100) {
        Some(TransferPhase::InProgress { filename, bytes, total }) => {
            assert_eq!(filename, "a.zip");
            assert_eq!((bytes, total), (40, 100));
        }
        other => panic!("unexpected {:?}", other),
    }
    match t.on_transfer_completed(&mut st, "t1", "a.zip", 2) {
        TransferPhase::Completed { filename } => assert_eq!(filename, "a.zip"),
        other => panic!("unexpected {:?}", other),
    }
    assert_eq!(st.notifications[1].message, "a.zip received. Click to open.");
    assert!(t.active_incoming.is_none() && t.active_outgoing.is_none());
    assert!(t.on_transfer_progress("t1", 1, 2).is_none());
}

#[test]
fn concurrent_transfers_are_combined() {
    let mut st = fresh_state();
    let mut t = TransferTracker::new();
    t.on_transfer_starting(&mut st, "o1".to_string(), "up.bin".to_string(), false, 200, 1);
    t.on_transfer_starting(&mut st, "i1".to_string(), "down.bin".to_string(), true, 100, 1);
    assert_eq!(st.notifications.len(), 1);
    match t.on_transfer_progress("i1", 50, 100) {
        Some(TransferPhase::Aggregate { label, parts }) => {
            assert_eq!(label, "up.bin  (file 2/2)");
            assert_eq!(
                parts,
                vec![
                    TransferPart { size: 200, bytes: 0, total: 0 },
                    TransferPart { size: 100, bytes: 50, total: 100 }
                ]
            );
        }
        other => panic!("unexpected {:?}", other),
    }
    match t.on_transfer_completed(&mut st, "o1", "up.bin", 3) {
        TransferPhase::InProgress { filename, bytes, total } => {
            assert_eq!(filename, "down.bin");
            assert_eq!((bytes, total), (50, 100));
        }
        other => panic!("unexpected {:?}", other),
    }
    assert_eq!(st.notifications.last().unwrap().message, "up.bin finished");
    assert!(t.active_outgoing.is_none());
    assert_eq!(t.active_incoming.as_deref(), Some("i1"));
}

#[test]
fn broken_uploads_are_queued_again() {
    let mut st = fresh_state();
    let mut t = TransferTracker::new();
    let mut q = RetryQueue::new();
    t.record_path("o1".to_string(), "/home/u/f.txt".to_string());
    t.on_transfer_starting(&mut st, "o1".to_string(), "f.txt".to_string(), false, 10, 1);
    match t.on_transfer_failed(&mut st, &mut q, "o1", "Connection reset by peer", 2) {
        TransferPhase::Failed { error } => assert_eq!(error, "Connection reset by peer"),
        other => panic!("unexpected {:?}", other),
    }
    assert_eq!(q.take_for("10.0.0.7"), vec!["/home/u/f.txt".to_string()]);
    assert_eq!(st.notifications.last().unwrap().title, "Transfer Failed");
    assert!(!t.paths.contains_key("o1"));
}

#[test]
fn cancelled_transfers_are_not_reported() {
    let mut st = fresh_state();
    let mut t = TransferTracker::new();
    let mut q = RetryQueue::new();
    t.record_path("o1".to_string(), "/f".to_string());
    t.on_transfer_starting(&mut st, "o1".to_string(), "f".to_string(), false, 10, 1);
    match t.on_transfer_failed(&mut st, &mut q, "o1", "Transfer CANCELLED by user", 2) {
        TransferPhase::Cancelled { filename } => assert_eq!(filename, "File transfer"),
        other => panic!("unexpected {:?}", other),
    }
    assert!(st.notifications.is_empty());
    assert!(q.take_for("0.0.0.0").is_empty());
    assert!(t.paths.contains_key("o1"));
}

#[test]
fn offers_are_refused_accepted_or_kept() {
    let offer = FileTransferRequest {
        id: "x1".to_string(),
        filename: "movie.mkv".to_string(),
        size: 1234,
        from_device: "Pixel".to_string(),
        from_fingerprint: "fp".to_string(),
        timestamp: 5,
    };
    let mut st = fresh_state();
    assert_eq!(
        on_transfer_offer(&mut st, offer.clone(), Some("Not enough disk space".to_string()), false, 5),
        OfferOutcome::Refused
    );
    assert_eq!(st.notifications[0].title, "Transfer Rejected");
    assert_eq!(on_transfer_offer(&mut st, offer.clone(), None, true, 5), OfferOutcome::Accepted);
    assert!(st.file_transfer_requests.get("x1").is_none());
    assert_eq!(on_transfer_offer(&mut st, offer, None, false, 5), OfferOutcome::Waiting);
    assert_eq!(st.notifications[1].message, "Pixel wants to send movie.mkv (1234 bytes)");
    assert!(st.file_transfer_requests.contains_key("x1"));
}
