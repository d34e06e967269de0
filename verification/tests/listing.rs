use clibby::history::{ClipEntry, EntryKind, History, Store};
use clibby::listing::{display_content, display_type, list_history};
use clibby::pathname::Platform;
use clibby::text::text_preview;

fn entry(name: &str, kind: EntryKind, source: Option<&str>, text: Option<&str>) -> ClipEntry {
    ClipEntry {
        id: "id".to_owned(),
        name: name.to_owned(),
        kind,
        system_source: source.map(str::to_owned),
        system_text: text.map(str::to_owned),
        reference_only: source.is_some(),
        group: None,
    }
}

#[test]
fn display_type_uses_file_extension_or_file() {
    let mut entry = ClipEntry {
        id: "id".to_owned(),
        name: "README".to_owned(),
        kind: EntryKind::File,
        system_source: Some("C:/work/README".to_owned()),
        system_text: None,
        reference_only: true,
        group: None,
    };
    assert_eq!(display_type(&entry), "file");

    entry.system_source = Some("C:/work/main.rs".to_owned());
    assert_eq!(display_type(&entry), "rs");
}

#[test]
fn text_preview_is_limited_to_one_hundred_characters() {
    let text = "x".repeat(101);
    assert_eq!(text_preview(&text), format!("{}...", "x".repeat(100)));
    assert_eq!(text_preview("first\r\nsecond"), "first second");
}

#[test]
fn text_preview_turns_each_line_break_into_one_space() {
    assert_eq!(text_preview("a\rb\nc\r\n\r\nd"), "a b c  d");
    assert_eq!(text_preview(""), "");
    assert_eq!(text_preview(&"y".repeat(100)), "y".repeat(100));
    let long = format!("{}\r\n{}", "é".repeat(99), "z".repeat(5));
    assert_eq!(text_preview(&long), format!("{} ...", "é".repeat(99)));
}

#[test]
fn display_type_names_texts_and_directories() {
    assert_eq!(display_type(&entry("clipboard.txt", EntryKind::Text, None, Some("hi"))), "text");
    assert_eq!(display_type(&entry("assets", EntryKind::Directory, Some("/work/assets.d"), None)), "directory");
    assert_eq!(display_type(&entry("notes.md", EntryKind::File, None, None)), "md");
    assert_eq!(display_type(&entry(".bashrc", EntryKind::File, Some("/home/u/.bashrc"), None)), "file");
}

#[test]
fn display_content_shows_preview_or_path() {
    let store = Store::new("/work", "/data");
    let text = entry("clipboard.txt", EntryKind::Text, None, Some("one\ntwo"));
    assert_eq!(display_content(&store, &text, Platform::OtherUnix), "one two");
    let file = entry("a.txt", EntryKind::File, Some("/work/a.txt"), None);
    assert_eq!(display_content(&store, &file, Platform::OtherUnix), "/work/a.txt");
    let verbatim = entry("a.txt", EntryKind::File, Some("\\\\?\\C:\\work\\a.txt"), None);
    assert_eq!(display_content(&store, &verbatim, Platform::Windows), "C:\\work\\a.txt");
    assert_eq!(display_content(&store, &verbatim, Platform::OtherUnix), "\\\\?\\C:\\work\\a.txt");
    let unsafe_name = ClipEntry {
        id: "..".to_owned(),
        name: "a.txt".to_owned(),
        kind: EntryKind::File,
        system_source: None,
        system_text: None,
        reference_only: false,
        group: None,
    };
    assert_eq!(display_content(&store, &unsafe_name, Platform::OtherUnix), "a.txt");
}

#[test]
fn list_history_prints_newest_first() {
    let store = Store::new("/work", "/data");
    let history = History {
        entries: vec![
            entry("a.rs", EntryKind::File, Some("/work/a.rs"), None),
            entry("clipboard.txt", EntryKind::Text, None, Some("hello\r\nworld")),
            entry("dir", EntryKind::Directory, Some("/work/dir"), None),
        ],
    };
    let lines = list_history(&store, &history, 8, Platform::OtherUnix);
    assert_eq!(
        lines,
        vec![
            "[0][directory] /work/dir".to_owned(),
            "[1][text] hello world".to_owned(),
            "[2][rs] /work/a.rs".to_owned(),
        ]
    );
    assert_eq!(list_history(&store, &history, 1, Platform::OtherUnix), vec!["[0][directory] /work/dir".to_owned()]);
    assert!(list_history(&store, &history, 0, Platform::OtherUnix).is_empty());
}

#[test]
fn list_history_of_empty_history_says_so() {
    let store = Store::new("/work", "/data");
    let history = History::new();
    assert_eq!(list_history(&store, &history, 8, Platform::OtherUnix), vec!["Clipboard history is empty.".to_owned()]);
    assert!(list_history(&store, &history, 0, Platform::OtherUnix).is_empty());
}

#[test]
fn list_history_numbers_rows_in_decimal() {
    let store = Store::new("/work", "/data");
    let mut entries = Vec::new();
    for i in 0..12 {
        entries.push(entry(&format!("f{i}.txt"), EntryKind::File, Some(&format!("/w/f{i}.txt")), None));
    }
    let history = History { entries };
    let lines = list_history(&store, &history, 20, Platform::OtherUnix);
    assert_eq!(lines.len(), 12);
    assert_eq!(lines[11], "[11][txt] /w/f0.txt");
    assert_eq!(lines[10], "[10][txt] /w/f1.txt");
}

#[test]
fn display_type_takes_what_follows_the_last_dot() {
    assert_eq!(display_type(&entry("a.tar.gz", EntryKind::File, Some("/w/a.tar.gz"), None)), "gz");
    assert_eq!(display_type(&entry("a.", EntryKind::File, Some("/w/a."), None)), "file");
    assert_eq!(display_type(&entry("..x", EntryKind::File, Some("/w/..x"), None)), "x");
    assert_eq!(display_type(&entry("d", EntryKind::File, Some("/w.d/file"), None)), "file");
}
