use clibby::command::{command_named, run, same_text, CommandContext, CommandName};
use clibby::error::ClipError;
use clibby::history::{text_entry, ClipEntry, EntryKind, History};
use clibby::platform::{
    open_with_default_application, publish_system_clipboard, publish_system_clipboard_text,
    read_unicode_text, sync_system_text, sync_windows_system_clipboard, system_paths_match_history,
    ClipboardContent, SyncAction,
};
use clibby::pathname::Platform;
use clibby::text::{decode_utf16_lossy, encode_utf16, nul_position};

fn reference(path: &str) -> ClipEntry {
    ClipEntry {
        id: "1".to_owned(),
        name: "n".to_owned(),
        kind: EntryKind::File,
        system_source: Some(path.to_owned()),
        system_text: None,
        reference_only: true,
        group: None,
    }
}

#[test]
fn recorded_paths_match_the_newest_entries() {
    let history = History { entries: vec![reference("/x"), reference("/a"), reference("/b")] };
    assert!(system_paths_match_history(&history, &vec!["/a".to_owned(), "/b".to_owned()]));
    assert!(!system_paths_match_history(&history, &vec!["/b".to_owned(), "/a".to_owned()]));
    assert!(!system_paths_match_history(&history, &vec!["/1".to_owned(); 4]));
    assert!(system_paths_match_history(&history, &Vec::new()));
}

#[test]
fn sync_imports_only_what_is_new() {
    let mut history = History::new();
    let files = Some(ClipboardContent::Files(vec!["/a".to_owned()]));
    assert_eq!(sync_windows_system_clipboard(&history, &files), SyncAction::RecordFiles);
    history.record(reference("/a"));
    assert_eq!(sync_windows_system_clipboard(&history, &files), SyncAction::Nothing);
    assert_eq!(sync_windows_system_clipboard(&history, &Some(ClipboardContent::Files(Vec::new()))), SyncAction::Nothing);
    assert_eq!(sync_windows_system_clipboard(&history, &None), SyncAction::Nothing);

    let text = Some(ClipboardContent::Text("hello".to_owned()));
    assert!(sync_system_text(&history, "hello"));
    assert_eq!(sync_windows_system_clipboard(&history, &text), SyncAction::RecordText);
    history.record(text_entry("2".to_owned(), "hello"));
    assert!(!sync_system_text(&history, "hello"));
    assert_eq!(sync_windows_system_clipboard(&history, &text), SyncAction::Nothing);
}

#[test]
fn text_payload_is_utf16_with_a_terminator() {
    let units = publish_system_clipboard_text("aé😀");
    assert_eq!(units, vec![0x61, 0xE9, 0xD83D, 0xDE00, 0]);
    assert_eq!(read_unicode_text(&units), "aé😀");
    let expected: Vec<u16> = "line\r\nnext 中文 🎉".encode_utf16().collect();
    assert_eq!(encode_utf16("line\r\nnext 中文 🎉"), expected);
}

#[test]
fn clipboard_text_stops_at_nul_and_replaces_lone_surrogates() {
    let units = vec![0x68, 0x69, 0, 0x78];
    assert_eq!(nul_position(&units), 2);
    assert_eq!(read_unicode_text(&units), "hi");
    let broken = vec![0xD800, 0x41, 0xDC00, 0xD83D, 0xDE00];
    assert_eq!(read_unicode_text(&broken), String::from_utf16_lossy(&broken));
    assert_eq!(decode_utf16_lossy(&broken, 2), "\u{FFFD}A");
}

#[test]
fn file_list_payload_is_double_nul_terminated() {
    let units = publish_system_clipboard(&vec!["C:\\a".to_owned(), "b".to_owned()]).unwrap();
    let mut expected: Vec<u16> = "C:\\a".encode_utf16().collect();
    expected.push(0);
    expected.push(u16::from(b'b'));
    expected.push(0);
    expected.push(0);
    assert_eq!(units, expected);
    assert!(matches!(publish_system_clipboard(&Vec::new()), Err(ClipError::EmptyFileList)));
}

#[test]
fn default_application_command_per_platform() {
    let cmd = open_with_default_application("C:\\a.txt", Platform::Windows).unwrap();
    assert_eq!(cmd.program, "cmd");
    assert_eq!(cmd.args, vec!["/C", "start", "", "C:\\a.txt"]);
    let cmd = open_with_default_application("/a.txt", Platform::MacOs).unwrap();
    assert_eq!((cmd.program.as_str(), cmd.args), ("open", vec!["/a.txt".to_owned()]));
    let cmd = open_with_default_application("/a.txt", Platform::OtherUnix).unwrap();
    assert_eq!((cmd.program.as_str(), cmd.args), ("xdg-open", vec!["/a.txt".to_owned()]));
    assert!(matches!(open_with_default_application("/a", Platform::Unsupported), Err(ClipError::OpenUnsupported)));
}

#[test]
fn commands_are_found_by_name() {
    assert_eq!(command_named("copy"), Some(CommandName::Copy));
    assert_eq!(command_named("paste"), Some(CommandName::Paste));
    assert_eq!(command_named("list"), Some(CommandName::List));
    assert_eq!(command_named("clean"), Some(CommandName::Clean));
    assert_eq!(command_named("invoke"), Some(CommandName::Invoke));
    assert_eq!(command_named("show"), Some(CommandName::Show));
    assert_eq!(command_named("ls"), None);
    assert!(matches!(run(None), Ok(CommandName::Show)));
    assert!(matches!(run(Some("list")), Ok(CommandName::List)));
    assert!(matches!(run(Some("nope")), Err(ClipError::UnregisteredCommand { name }) if name == "nope"));
    assert!(same_text("é", "é"));
    assert!(!same_text("ab", "a"));
}

#[test]
fn command_context_holds_the_store() {
    let context = CommandContext::open("/work", "data");
    assert_eq!(context.store().items_dir, "/work/data/items");
    assert_eq!(context.store().history_path, "/work/data/history.json");
}

#[test]
fn recorded_paths_are_compared_by_component() {
    let history = History { entries: vec![reference("/x"), reference("/a/"), reference("/b//c")] };
    assert!(system_paths_match_history(&history, &vec!["/a".to_owned(), "/b/c".to_owned()]));
    let files = Some(ClipboardContent::Files(vec!["/a".to_owned(), "/b/c".to_owned()]));
    assert_eq!(sync_windows_system_clipboard(&history, &files), SyncAction::Nothing);
    assert!(!system_paths_match_history(&history, &vec!["/a".to_owned(), "/b/d".to_owned()]));
}
