use connected::device_type::DeviceType;

#[test]
fn test_device_type_string_contract() {
    assert_eq!(DeviceType::from_str("android"), Ok(DeviceType::Android));
    assert_eq!(DeviceType::from_str("ios"), Ok(DeviceType::IOS));
    assert_eq!(DeviceType::from_str("linux"), Ok(DeviceType::Linux));
    assert_eq!(DeviceType::from_str("windows"), Ok(DeviceType::Windows));
    assert_eq!(DeviceType::from_str("macos"), Ok(DeviceType::MacOS));
    // Aliases used by mobile TXT records / share intents:
    assert_eq!(DeviceType::from_str("iphone"), Ok(DeviceType::IOS));

    // Unknown / empty strings degrade gracefully.
    assert_eq!(DeviceType::from_str("toaster"), Err(()));
    assert_eq!(DeviceType::from_str(""), Err(()));

    // Round-trip: every type's storage string parses back to itself.
    for ty in [
        DeviceType::Android,
        DeviceType::IOS,
        DeviceType::Linux,
        DeviceType::Windows,
        DeviceType::MacOS,
        DeviceType::Unknown,
    ] {
        assert_eq!(
            DeviceType::from_str(ty.as_str()),
            Ok(ty),
            "as_str/from_str round-trip broken for {:?}",
            ty
        );
    }
}

#[test]
fn device_type_names_are_lowercase_storage_names() {
    assert_eq!(DeviceType::IOS.as_str(), "ios");
    assert_eq!(DeviceType::MacOS.as_str(), "macos");
    assert_eq!(DeviceType::Unknown.as_str(), "unknown");
    assert_eq!(DeviceType::from_str("Android"), Err(()));
}
