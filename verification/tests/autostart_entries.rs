use connected::autostart::{
    autostart_exec_target, desktop_entry, exec_binary, launch_agent_plist, quote_exec, xml_escape,
    ExecTarget, AUTOSTART_ARG, is_transient_executable, windows_run_value,
};

#[test]
fn exec_path_is_quoted_with_quotes_escaped() {
    assert_eq!(quote_exec("/usr/bin/connected-desktop"), "\"/usr/bin/connected-desktop\"");
    assert_eq!(quote_exec("/opt/my \"app\""), "\"/opt/my \\\"app\\\"\"");
}

#[test]
fn exec_binary_reads_first_token() {
    assert_eq!(exec_binary("Exec=\"/opt/my app/bin\" --autostart").as_deref(), Some("/opt/my app/bin"));
    assert_eq!(exec_binary("Exec=connected-desktop --autostart").as_deref(), Some("connected-desktop"));
    assert_eq!(exec_binary("Exec=   /usr/bin/x").as_deref(), Some("/usr/bin/x"));
    assert_eq!(exec_binary("Exec=\"a\\\"b\" x").as_deref(), Some("a\"b"));
    assert_eq!(exec_binary("Exec=\"unterminated").as_deref(), Some("unterminated"));
    assert_eq!(exec_binary("Exec="), None);
    assert_eq!(exec_binary("Exec=\"\""), None);
    assert_eq!(exec_binary("Exec=   "), None);
    assert_eq!(exec_binary("Name=Connected"), None);
}

#[test]
fn desktop_entry_names_the_quoted_binary_and_flag() {
    let entry = desktop_entry("/usr/bin/connected-desktop");
    assert_eq!(
        entry,
        "[Desktop Entry]\nType=Application\nVersion=1.0\nName=Connected\nComment=High-speed, offline, cross-platform ecosystem bridging devices\nExec=\"/usr/bin/connected-desktop\" --autostart\nIcon=connected-desktop\nTerminal=false\nCategories=Utility;Network;FileTransfer;\nX-GNOME-Autostart-enabled=true\n"
    );
    assert_eq!(AUTOSTART_ARG, "--autostart");
}

#[test]
fn written_entry_reads_back_to_its_binary() {
    for exe in ["/usr/bin/connected-desktop", "/home/me/My Apps/connected", "/opt/\"q\"/c"] {
        let entry = desktop_entry(exe);
        match autostart_exec_target(&entry) {
            Some(ExecTarget::Absolute(b)) => assert_eq!(b, exe),
            other => panic!("unexpected target {:?}", other),
        }
    }
    match autostart_exec_target("[Desktop Entry]\r\nExec=connected-desktop --autostart\r\n") {
        Some(ExecTarget::Bare(b)) => assert_eq!(b, "connected-desktop"),
        other => panic!("unexpected target {:?}", other),
    }
    assert!(autostart_exec_target("[Desktop Entry]\nName=x\n").is_none());
}

#[test]
fn xml_escaping_and_plist() {
    assert_eq!(xml_escape("a&b<c>d\"e'f"), "a&amp;b&lt;c&gt;d&quot;e&apos;f");
    assert_eq!(xml_escape("&amp;"), "&amp;amp;");
    let plist = launch_agent_plist("/Applications/A&B.app/Contents/MacOS/a");
    assert!(plist.contains("<string>/Applications/A&amp;B.app/Contents/MacOS/a</string>"));
    assert!(plist.contains("<string>--autostart</string>"));
    assert!(plist.starts_with("<?xml version=\"1.0\" encoding=\"UTF-8\"?>\n"));
    assert!(plist.ends_with("</plist>\n"));
}

#[test]
fn transient_builds_are_recognised() {
    assert!(is_transient_executable("/home/u/src/connected/target/debug/connected-desktop"));
    assert!(is_transient_executable("/home/u/x/target/release/app"));
    assert!(is_transient_executable("/tmp/.mount_ConnecAbc/usr/bin/connected"));
    assert!(!is_transient_executable("/usr/bin/connected-desktop"));
}

#[test]
fn windows_run_value_quotes_the_path() {
    assert_eq!(
        windows_run_value("C:\\Program Files\\Connected\\connected.exe"),
        "\"C:\\Program Files\\Connected\\connected.exe\" --autostart"
    );
}
