use connected::filesystem::{
    compare_entries, owned_visible_entries, search_query, sort_entries, toggle_all_visible,
    visible_selected_snapshot, FsEntry, FsEntryType, Order, SortKey,
};
use connected::ffi::{FfiFsEntry, FfiFsEntryType};
use connected::strmap::StrMap;

fn entry(name: &str, kind: FsEntryType, size: u64, modified: Option<u64>) -> FsEntry {
    FsEntry {
        name: name.to_string(),
        path: format!("/{}", name),
        entry_type: kind,
        size,
        modified,
    }
}

fn names(v: &[FsEntry]) -> Vec<&str> {
    v.iter().map(|e| e.name.as_str()).collect()
}

fn sample() -> Vec<FsEntry> {
    vec![
        entry("b.txt", FsEntryType::File, 30, Some(3)),
        entry("Docs", FsEntryType::Directory, 0, Some(1)),
        entry("a.txt", FsEntryType::File, 10, None),
        entry("Zeta", FsEntryType::Directory, 0, Some(9)),
        entry("C.md", FsEntryType::File, 20, Some(5)),
    ]
}

#[test]
fn directories_first_then_by_key() {
    let by_name = sort_entries(sample(), SortKey::Name, true);
    assert_eq!(names(&by_name), vec!["Docs", "Zeta", "a.txt", "b.txt", "C.md"]);
    let by_name_desc = sort_entries(sample(), SortKey::Name, false);
    assert_eq!(names(&by_name_desc), vec!["Zeta", "Docs", "C.md", "b.txt", "a.txt"]);
    let by_size = sort_entries(sample(), SortKey::Size, true);
    assert_eq!(names(&by_size), vec!["Docs", "Zeta", "a.txt", "C.md", "b.txt"]);
    let by_date = sort_entries(sample(), SortKey::Date, false);
    assert_eq!(names(&by_date), vec!["Zeta", "Docs", "C.md", "b.txt", "a.txt"]);
    let s = sample();
    assert_eq!(compare_entries(&s[1], &s[0], SortKey::Size, false), Order::Less);
    assert_eq!(compare_entries(&s[0], &s[0], SortKey::Name, true), Order::Equal);
}

#[test]
fn sort_keys_have_labels() {
    for k in SortKey::all() {
        assert_eq!(SortKey::from_label(k.label()), Some(k));
    }
    assert_eq!(SortKey::from_label("name"), None);
}

#[test]
fn search_narrows_visible_entries() {
    assert_eq!(search_query("  TxT "), "txt");
    let files = Some(sample());
    let vis = owned_visible_entries(&files, &None, "txt");
    assert_eq!(names(&vis), vec!["b.txt", "a.txt"]);
    let results = Some(vec![entry("other.TXT", FsEntryType::File, 1, None), entry("x", FsEntryType::File, 1, None)]);
    assert_eq!(names(&owned_visible_entries(&files, &results, "txt")), vec!["other.TXT"]);
    assert_eq!(owned_visible_entries(&files, &results, "").len(), 5);
    assert!(owned_visible_entries(&None, &None, "").is_empty());
}

#[test]
fn select_all_toggles() {
    let files = Some(sample());
    let mut selected: StrMap<()> = StrMap::new();
    toggle_all_visible(&files, &None, " TXT", &mut selected);
    assert_eq!(selected.len(), 2);
    assert!(selected.contains_key("/a.txt") && selected.contains_key("/b.txt"));
    let snap = visible_selected_snapshot(&files, &None, "", SortKey::Name, true, &selected);
    assert_eq!(names(&snap), vec!["a.txt", "b.txt"]);
    toggle_all_visible(&files, &None, "txt", &mut selected);
    assert_eq!(selected.len(), 0);
    toggle_all_visible(&files, &None, "", &mut selected);
    assert_eq!(selected.len(), 5);
}

#[test]
fn entries_convert_to_and_from_bindings() {
    let e = entry("a.txt", FsEntryType::Symlink, 7, Some(1));
    let f: FfiFsEntry = e.clone().into();
    assert!(matches!(f.entry_type, FfiFsEntryType::Symlink));
    assert_eq!(f.size, 7);
    let back: FsEntry = f.into();
    assert_eq!(back.entry_type, FsEntryType::Symlink);
    assert_eq!(back.name, "a.txt");
}
