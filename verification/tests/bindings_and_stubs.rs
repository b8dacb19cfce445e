use connected::bridge::{unpair_reason_from_str, unpair_reason_str, TransferSizes, UnpairReason};
use connected::xdo::{CreationError, XDo};

#[test]
fn completed_transfer_reports_its_announced_size() {
    let mut t = TransferSizes::new();
    t.on_transfer_starting("t1".to_string(), 100);
    t.on_transfer_progress("t1".to_string(), 120);
    assert_eq!(t.on_transfer_completed("t1"), 120);
    assert_eq!(t.on_transfer_completed("t1"), 0);
    t.on_transfer_starting("t2".to_string(), 5);
    t.on_transfer_failed("t2");
    assert_eq!(t.on_transfer_completed("t2"), 0);
}

#[test]
fn unpair_reasons_round_trip() {
    for r in [UnpairReason::Unpaired, UnpairReason::Forgotten] {
        assert_eq!(unpair_reason_from_str(unpair_reason_str(r)), r);
    }
    assert_eq!(unpair_reason_from_str("anything"), UnpairReason::Unpaired);
}

#[test]
fn xdo_stub_is_unavailable() {
    let e = XDo::new(None).err().expect("never available");
    assert_eq!(e, CreationError::Unavailable);
    assert_eq!(e.message(), "libxdo stub: not available");
}

#[test]
fn completion_reports_the_last_size_among_other_transfers() {
    let mut t = TransferSizes::new();
    t.on_transfer_starting("a".to_string(), 10);
    t.on_transfer_starting("b".to_string(), 70);
    t.on_transfer_progress("a".to_string(), 11);
    t.on_transfer_progress("b".to_string(), 71);
    t.on_transfer_progress("a".to_string(), 12);
    assert_eq!(t.on_transfer_completed("a"), 12);
    assert_eq!(t.on_transfer_completed("a"), 0);
    assert_eq!(t.on_transfer_completed("b"), 71);
}
