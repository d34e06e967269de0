use clibby::error::ClipError;
use clibby::history::{
    copy_selection_group, data_root, ensure_existing_content, entry_id, entry_kind_for, history_entry, history_group,
    is_safe_component, reference_entry, text_entry, ClipEntry, DataDirVars, EntryKind, History, Store,
};
use clibby::pathname::Platform;

fn grouped(name: &str, group: Option<&str>) -> ClipEntry {
    ClipEntry {
        id: format!("id-{name}"),
        name: name.to_owned(),
        kind: EntryKind::File,
        system_source: Some(format!("/src/{name}")),
        system_text: None,
        reference_only: true,
        group: group.map(str::to_owned),
    }
}

#[test]
fn safe_component_rejects_path_traversal() {
    assert!(is_safe_component("report.txt"));
    assert!(!is_safe_component(".."));
    assert!(!is_safe_component("nested/file.txt"));
}

#[test]
fn safe_component_rejects_empty_dot_and_backslash() {
    assert!(!is_safe_component(""));
    assert!(!is_safe_component("."));
    assert!(!is_safe_component("a\\b"));
    assert!(is_safe_component("..."));
    assert!(is_safe_component(".hidden"));
}

#[test]
fn history_entry_counts_from_the_newest() {
    let mut history = History::new();
    history.record(grouped("a", None));
    history.record(grouped("b", None));
    assert_eq!(history_entry(&history, 0).unwrap().name, "b");
    assert_eq!(history_entry(&history, 1).unwrap().name, "a");
    assert!(matches!(
        history_entry(&history, 2),
        Err(ClipError::IndexOutOfRange { index: 2, len: 2 })
    ));
}

#[test]
fn history_group_returns_the_whole_selection() {
    let history = History {
        entries: vec![
            grouped("a", Some("g1")),
            grouped("b", Some("g1")),
            grouped("c", None),
            grouped("d", Some("g2")),
        ],
    };
    let names = |v: Vec<ClipEntry>| v.into_iter().map(|e| e.name).collect::<Vec<_>>();
    assert_eq!(names(history_group(&history, 0).unwrap()), vec!["d"]);
    assert_eq!(names(history_group(&history, 1).unwrap()), vec!["c"]);
    assert_eq!(names(history_group(&history, 2).unwrap()), vec!["a", "b"]);
    assert_eq!(names(history_group(&history, 3).unwrap()), vec!["a", "b"]);
    assert!(history_group(&history, 4).is_err());
}

#[test]
fn content_path_lies_under_the_items_directory() {
    let store = Store::new("/work", "/data");
    assert_eq!(store.items_dir, "/data/items");
    assert_eq!(store.history_path, "/data/history.json");
    let relative = Store::new("/work", "data");
    assert_eq!(relative.items_dir, "/work/data/items");

    let text = text_entry("17-4".to_owned(), "hello");
    assert_eq!(text.name, "clipboard.txt");
    assert_eq!(text.system_text.as_deref(), Some("hello"));
    let path = store.entry_path(&text).unwrap();
    assert_eq!(path, "/data/items/17-4/content/clipboard.txt");
    assert_eq!(store.text_cache_paths("17-4").2, path);

    let mut bad = text_entry("..".to_owned(), "x");
    assert!(matches!(store.content_path(&bad), Err(ClipError::UnsafeComponent)));
    bad.id = "1".to_owned();
    bad.name = "a/b".to_owned();
    assert!(matches!(store.entry_path(&bad), Err(ClipError::UnsafeComponent)));
}

#[test]
fn entry_path_of_a_reference_is_its_source() {
    let store = Store::new("/work", "/data");
    let mut e = grouped("a.txt", None);
    assert_eq!(store.entry_path(&e).unwrap(), "/src/a.txt");
    e.system_source = None;
    assert!(matches!(store.entry_path(&e), Err(ClipError::MissingSource)));
}

#[test]
fn missing_content_is_reported() {
    let file = grouped("a.txt", None);
    assert!(ensure_existing_content("/src/a.txt", &file, true, false).is_ok());
    assert!(matches!(
        ensure_existing_content("/src/a.txt", &file, false, true),
        Err(ClipError::MissingContent { path }) if path == "/src/a.txt"
    ));
    let mut dir = grouped("d", None);
    dir.kind = EntryKind::Directory;
    assert!(ensure_existing_content("/src/d", &dir, false, true).is_ok());
    assert!(ensure_existing_content("/src/d", &dir, true, false).is_err());
}

#[test]
fn entry_kind_follows_the_file_type() {
    assert!(matches!(entry_kind_for(true, true, false), Err(ClipError::SymbolicLink)));
    assert!(matches!(entry_kind_for(false, true, false), Ok(EntryKind::File)));
    assert!(matches!(entry_kind_for(false, false, true), Ok(EntryKind::Directory)));
    assert!(matches!(entry_kind_for(false, false, false), Err(ClipError::UnsupportedFileType)));
}

#[test]
fn reference_entry_is_named_after_the_source() {
    let e = reference_entry("docs/report.txt", EntryKind::File, "/home/u/docs/report.txt", "5-1".to_owned(), Some("g".to_owned()))
        .unwrap();
    assert_eq!(e.name, "report.txt");
    assert_eq!(e.system_source.as_deref(), Some("/home/u/docs/report.txt"));
    assert!(e.reference_only);
    assert_eq!(e.group.as_deref(), Some("g"));
    assert!(matches!(
        reference_entry("/", EntryKind::Directory, "/", "1".to_owned(), None),
        Err(ClipError::NoName)
    ));
    assert!(matches!(
        reference_entry("a\\b", EntryKind::File, "/w/a\\b", "1".to_owned(), None),
        Err(ClipError::InvalidName { name }) if name == "a\\b"
    ));
}

#[test]
fn entry_id_is_nanoseconds_dash_process() {
    assert_eq!(entry_id(0, 0), "0-0");
    assert_eq!(entry_id(1_700_000_000_123_456_789, 4321), "1700000000123456789-4321");
    assert_eq!(entry_id(u128::MAX, u32::MAX), format!("{}-{}", u128::MAX, u32::MAX));
    assert!(is_safe_component(&entry_id(99, 7)));
}

fn vars() -> DataDirVars {
    DataDirVars { clb_data_dir: None, local_app_data: None, app_data: None, home: None, xdg_data_home: None }
}

#[test]
fn data_root_follows_the_platform() {
    let mut v = vars();
    v.clb_data_dir = Some("D:/clb-data".to_owned());
    assert_eq!(data_root(&v, Platform::Unsupported).unwrap(), "D:/clb-data");

    let mut v = vars();
    v.home = Some("/home/u".to_owned());
    assert_eq!(data_root(&v, Platform::OtherUnix).unwrap(), "/home/u/.local/share/clipboarry");
    assert_eq!(data_root(&v, Platform::MacOs).unwrap(), "/home/u/Library/Application Support/clipboarry");
    v.xdg_data_home = Some("/xdg".to_owned());
    assert_eq!(data_root(&v, Platform::OtherUnix).unwrap(), "/xdg/clipboarry");
    assert!(matches!(data_root(&v, Platform::Windows), Err(ClipError::NoAppData)));
    v.app_data = Some("/roaming".to_owned());
    assert_eq!(data_root(&v, Platform::Windows).unwrap(), "/roaming/clipboarry");
    v.local_app_data = Some("/local".to_owned());
    assert_eq!(data_root(&v, Platform::Windows).unwrap(), "/local/clipboarry");

    assert!(matches!(data_root(&vars(), Platform::OtherUnix), Err(ClipError::NoHome)));
    assert!(matches!(data_root(&vars(), Platform::MacOs), Err(ClipError::NoHome)));
    assert!(matches!(data_root(&vars(), Platform::Unsupported), Err(ClipError::NoDataDirectory)));
}

#[test]
fn only_several_copied_paths_share_a_group() {
    assert_eq!(copy_selection_group(2, "g".to_owned()).as_deref(), Some("g"));
    assert_eq!(copy_selection_group(1, "g".to_owned()), None);
    assert_eq!(copy_selection_group(0, "g".to_owned()), None);
}
