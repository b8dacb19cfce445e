use connected::filesystem::{FsEntry, FsEntryType};
use connected::strmap::StrMap;
use connected::thumbs::{expire_thumbnail_requests, request_thumbnails, THUMBNAIL_REQUEST_WAIT_MS};

fn listed(name: &str, kind: FsEntryType) -> FsEntry {
    FsEntry {
        name: name.to_string(),
        path: format!("/pics/{}", name),
        entry_type: kind,
        size: 10,
        modified: None,
    }
}

#[test]
fn only_new_pictures_get_thumbnail_requests() {
    let entries = vec![
        listed("a.JPG", FsEntryType::File),
        listed("b.txt", FsEntryType::File),
        listed("c.png", FsEntryType::Directory),
        listed("d.webp", FsEntryType::File),
        listed("e.gif", FsEntryType::File),
        listed("f.ico", FsEntryType::File),
        listed("png", FsEntryType::File),
    ];
    let mut have: StrMap<String> = StrMap::new();
    have.insert("/pics/d.webp".to_string(), "xx".to_string());
    let mut requested: StrMap<u64> = StrMap::new();
    requested.insert("/pics/e.gif".to_string(), 100);
    let asked = request_thumbnails(&entries, &have, &mut requested, 1_000);
    assert_eq!(asked, vec!["/pics/a.JPG".to_string(), "/pics/png".to_string()]);
    assert_eq!(requested.get("/pics/a.JPG"), Some(&1_000));
    assert_eq!(requested.get("/pics/e.gif"), Some(&100));
    assert_eq!(requested.len(), 3);
    let again = request_thumbnails(&entries, &have, &mut requested, 2_000);
    assert!(again.is_empty());
}

#[test]
fn awaited_requests_expire_after_five_seconds() {
    let mut requested: StrMap<u64> = StrMap::new();
    requested.insert("/old".to_string(), 1_000);
    requested.insert("/new".to_string(), 5_000);
    requested.insert("/later".to_string(), 9_000);
    expire_thumbnail_requests(&mut requested, 1_000 + THUMBNAIL_REQUEST_WAIT_MS);
    assert!(!requested.contains_key("/old"));
    assert!(requested.contains_key("/new"));
    assert!(requested.contains_key("/later"));
}
