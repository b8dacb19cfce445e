use connected::filesystem::FsEntryType;
use connected::fs_provider::{
    check_read_size, entry_name, entry_path, entry_type_of, starts_with_path, wants_thumbnail,
    DesktopFilesystemProvider, FsProviderError, MAX_FS_READ_BYTES,
};

fn provider() -> DesktopFilesystemProvider {
    DesktopFilesystemProvider::new("/home/me".to_string(), "/home/me".to_string())
}

fn message(e: FsProviderError) -> String {
    match e {
        FsProviderError::Filesystem(m) => m,
    }
}

#[test]
fn requested_paths_stay_under_the_root() {
    let p = provider();
    assert_eq!(p.requested_path("").unwrap(), "/home/me");
    assert_eq!(p.requested_path("///").unwrap(), "/home/me");
    assert_eq!(p.requested_path("/Documents/a.txt").unwrap(), "/home/me/Documents/a.txt");
    assert_eq!(p.requested_path("x/..y/z").unwrap(), "/home/me/x/..y/z");
    assert_eq!(message(p.requested_path("/../etc/passwd").unwrap_err()), "Invalid path");
    assert_eq!(message(p.requested_path("a/b/..").unwrap_err()), "Invalid path");
    let slash = DesktopFilesystemProvider::new("/".to_string(), "/".to_string());
    assert_eq!(slash.requested_path("etc").unwrap(), "/etc");
}

#[test]
fn resolved_paths_must_stay_under_the_resolved_root() {
    let p = provider();
    assert_eq!(p.contained_path("/home/me/a".to_string()).unwrap(), "/home/me/a");
    assert_eq!(p.contained_path("/home/me".to_string()).unwrap(), "/home/me");
    assert_eq!(message(p.contained_path("/home/mexico".to_string()).unwrap_err()), "Path escapes root");
    assert_eq!(message(p.contained_path("/etc/passwd".to_string()).unwrap_err()), "Path escapes root");
    assert!(starts_with_path("/home/me//a/./b", "/home/me/"));
    assert!(!starts_with_path("home/me/a", "/home/me"));
    assert!(starts_with_path("./a/b", "./a"));
    assert!(!starts_with_path("a/b", "./a"));
}

#[test]
fn listed_entry_paths() {
    assert_eq!(entry_path("/", "a.txt"), "/a.txt");
    assert_eq!(entry_path("", "a.txt"), "/a.txt");
    assert_eq!(entry_path("/Documents", "a.txt"), "/Documents/a.txt");
    assert_eq!(entry_path("/Documents///", "a.txt"), "/Documents/a.txt");
    assert_eq!(entry_path("//", "a.txt"), "/a.txt");
}

#[test]
fn read_and_write_limits() {
    assert!(check_read_size(MAX_FS_READ_BYTES).is_ok());
    assert_eq!(
        message(check_read_size(MAX_FS_READ_BYTES + 1).unwrap_err()),
        "Read size 4194305 exceeds limit 4194304"
    );
    let p = provider();
    assert_eq!(
        message(p.write_file("/a", 0, b"x").unwrap_err()),
        "Remote file writes are disabled for security reasons"
    );
}

#[test]
fn entry_kinds_and_names() {
    assert_eq!(entry_type_of(true, true), FsEntryType::Symlink);
    assert_eq!(entry_type_of(false, true), FsEntryType::Directory);
    assert_eq!(entry_type_of(false, false), FsEntryType::File);
    assert_eq!(entry_name("/home/me/a.txt"), "a.txt");
    assert_eq!(entry_name("/home/me/dir/"), "dir");
    assert_eq!(entry_name("/"), "unknown");
    assert_eq!(entry_name("/home/.."), "unknown");
}

#[test]
fn thumbnails_only_for_images() {
    assert!(wants_thumbnail("/home/me/a.JPG"));
    assert!(wants_thumbnail("/home/me/b.png"));
    assert!(wants_thumbnail("/home/me/c.tar.webp"));
    assert!(!wants_thumbnail("/home/me/.png"));
    assert!(!wants_thumbnail("/home/me/png"));
    assert!(!wants_thumbnail("/home/me/a.txt"));
    assert!(!wants_thumbnail("/home/me/a."));
    assert!(!wants_thumbnail("/"));
}
