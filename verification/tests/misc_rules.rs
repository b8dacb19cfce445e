use connected::device_type::{device_type_or_unknown, DeviceType};
use connected::ffi::{CallAction, ConnectedFfiError, FilesystemError};
use connected::firewall::{all_rules_ok, firewall_rules, rule_ok, ObservedRule};
use connected::fs_provider::{check_thumbnail_dimensions, thumbnail_failure, FsProviderError};

#[test]
fn dtmf_tones() {
    let a = CallAction::SendDtmf { digit: "5#".to_string() };
    assert_eq!(a.dtmf_tone(), Some('5'));
    let empty = CallAction::SendDtmf { digit: String::new() };
    assert_eq!(empty.dtmf_tone(), Some('0'));
    assert_eq!(CallAction::Answer.dtmf_tone(), None);
    assert_eq!(CallAction::send_dtmf('*').dtmf_tone(), Some('*'));
}

#[test]
fn binding_error_texts() {
    assert_eq!(ConnectedFfiError::NotInitialized.message(), "Not initialized");
    assert_eq!(
        ConnectedFfiError::InvalidArgument { msg: "Invalid IP".to_string() }.message(),
        "Invalid argument: Invalid IP"
    );
    assert_eq!(
        ConnectedFfiError::ConnectionError { msg: "x".to_string() }.message(),
        "Connection error: x"
    );
    assert_eq!(FilesystemError::Generic { msg: "nope".to_string() }.message(), "Filesystem error: nope");
}

#[test]
fn device_kinds_fall_back_to_unknown() {
    assert_eq!(device_type_or_unknown("linux"), DeviceType::Linux);
    assert_eq!(device_type_or_unknown("toaster"), DeviceType::Unknown);
}

#[test]
fn thumbnail_limits() {
    assert!(check_thumbnail_dimensions(16384, 16384).is_ok());
    assert_eq!(
        check_thumbnail_dimensions(16385, 10).unwrap_err(),
        "Image too large for thumbnail: 16385x10 (max 16384x16384)"
    );
    match thumbnail_failure("bad header") {
        FsProviderError::Filesystem(m) => assert_eq!(m, "Thumbnail generation failed: bad header"),
    }
}

fn rule(inbound: bool, app: &str) -> ObservedRule {
    ObservedRule { enabled: true, allows: true, inbound, udp: true, application: Some(app.to_string()) }
}

#[test]
fn firewall_rules_are_checked() {
    let defs = firewall_rules();
    assert_eq!(defs[0].name, "Connected Desktop (mDNS) - Inbound");
    assert_eq!(defs[0].local_port, Some(5353));
    let exe = "C:\\Program Files\\Connected\\connected.exe";
    assert!(rule_ok(&defs[0], &rule(true, "c:\\program files\\connected\\CONNECTED.EXE"), exe));
    assert!(!rule_ok(&defs[0], &rule(false, exe), exe));
    let found = vec![Some(rule(true, exe)), Some(rule(false, exe)), Some(rule(true, exe)), Some(rule(false, exe))];
    assert!(all_rules_ok(&defs, &found, exe));
    let mut missing = found.clone();
    missing[3] = None;
    assert!(!all_rules_ok(&defs, &missing, exe));
    assert!(!all_rules_ok(&defs, &found[..3], exe));
    let mut disabled = found.clone();
    disabled[1] = Some(ObservedRule { enabled: false, ..rule(false, exe) });
    assert!(!all_rules_ok(&defs, &disabled, exe));
}
