use clibby::error::ClipError;
use clibby::history::{ClipEntry, EntryKind};
use clibby::paste::{
    check_paste_destinations, directory_child_action, rollback_order, paste_destinations, text_paste_selection,
    validate_text_paste_target, ChildAction,
};
use clibby::pathname::{absolute_path, has_trailing_separator};

const CWD: &str = "/work";

fn file_entry(name: &str) -> ClipEntry {
    ClipEntry {
        id: name.to_owned(),
        name: name.to_owned(),
        kind: EntryKind::File,
        system_source: None,
        system_text: None,
        reference_only: false,
        group: Some("g1".to_owned()),
    }
}

fn joined(base: &str, child: &str) -> String {
    std::path::Path::new(base).join(child).to_string_lossy().into_owned()
}

#[test]
fn trailing_separator_means_directory_target() {
    assert!(has_trailing_separator("foo/"));
    assert!(has_trailing_separator("foo\\"));
    assert!(!has_trailing_separator("foo"));
}

#[test]
fn text_paste_rejects_a_destination_path() {
    assert!(validate_text_paste_target(None).is_ok());
    assert!(validate_text_paste_target(Some("output.txt")).is_err());
}

#[test]
fn group_paste_without_target_uses_current_directory() {
    let entries = vec![file_entry("a.txt"), file_entry("b.txt"), file_entry("c.txt")];
    let destinations = paste_destinations(None, &entries, CWD).unwrap();
    assert_eq!(
        destinations,
        vec![joined(CWD, "a.txt"), joined(CWD, "b.txt"), joined(CWD, "c.txt")]
    );
}

#[test]
fn group_paste_into_slash_directory_target_keeps_each_name() {
    let entries = vec![file_entry("a.txt"), file_entry("b.txt")];
    let destinations = paste_destinations(Some("out/"), &entries, CWD).unwrap();
    assert_eq!(destinations, vec!["/work/out/a.txt".to_owned(), "/work/out/b.txt".to_owned()]);
}

#[test]
fn group_paste_into_directory_target_keeps_each_name() {
    let entries = vec![file_entry("a.txt"), file_entry("b.txt")];
    let destinations = paste_destinations(Some("out\\"), &entries, CWD).unwrap();
    assert_eq!(
        destinations,
        vec![joined(&joined(CWD, "out"), "a.txt"), joined(&joined(CWD, "out"), "b.txt")]
    );
}

#[test]
fn directory_targets_drop_every_trailing_separator_but_keep_roots() {
    let entries = vec![file_entry("a.txt"), file_entry("b.txt")];
    assert_eq!(
        paste_destinations(Some("out/\\/"), &entries, CWD).unwrap(),
        vec!["/work/out/a.txt".to_owned(), "/work/out/b.txt".to_owned()]
    );
    assert_eq!(
        paste_destinations(Some("/"), &entries, CWD).unwrap(),
        vec!["/a.txt".to_owned(), "/b.txt".to_owned()]
    );
}

#[test]
fn rollback_removes_newest_copies_first() {
    assert_eq!(rollback_order(3), vec![2, 1, 0]);
    assert!(rollback_order(0).is_empty());
}

#[test]
fn group_paste_rejects_an_exact_file_target() {
    let entries = vec![file_entry("a.txt"), file_entry("b.txt")];
    assert!(paste_destinations(Some("out.txt"), &entries, CWD).is_err());
}

#[test]
fn single_item_paste_keeps_exact_destination_name() {
    let entries = vec![file_entry("a.txt")];
    let destinations = paste_destinations(Some("out.txt"), &entries, CWD).unwrap();
    assert_eq!(destinations, vec![joined(CWD, "out.txt")]);
}

#[test]
fn absolute_targets_are_kept() {
    let entries = vec![file_entry("a.txt")];
    assert_eq!(paste_destinations(Some("/tmp/x"), &entries, CWD).unwrap(), vec!["/tmp/x".to_owned()]);
    assert_eq!(absolute_path(CWD, "/tmp/y"), "/tmp/y");
    assert_eq!(absolute_path(CWD, "y"), "/work/y");
}

#[test]
fn many_items_with_a_file_target_report_the_count() {
    let entries = vec![file_entry("a"), file_entry("b"), file_entry("c")];
    assert!(matches!(
        paste_destinations(Some("out"), &entries, CWD),
        Err(ClipError::FileDestinationForMany { count: 3, target }) if target == "out"
    ));
}

#[test]
fn text_is_pasted_alone_and_without_destination() {
    let mut text = file_entry("clipboard.txt");
    text.kind = EntryKind::Text;
    text.group = None;
    assert!(matches!(text_paste_selection(&vec![file_entry("a")], None), Ok(false)));
    assert!(matches!(text_paste_selection(&vec![text.clone_entry()], None), Ok(true)));
    assert!(matches!(
        text_paste_selection(&vec![text.clone_entry()], Some("o.txt")),
        Err(ClipError::TextDestination { target }) if target == "o.txt"
    ));
    assert!(matches!(
        text_paste_selection(&vec![file_entry("a"), text.clone_entry()], None),
        Err(ClipError::TextWithOtherItems)
    ));
}

trait CloneEntry {
    fn clone_entry(&self) -> ClipEntry;
}

impl CloneEntry for ClipEntry {
    fn clone_entry(&self) -> ClipEntry {
        self.duplicate()
    }
}

#[test]
fn pasting_never_overwrites_or_nests_a_directory_in_itself() {
    let mut dir = file_entry("d");
    dir.kind = EntryKind::Directory;
    let entries = vec![file_entry("a"), dir];
    let sources = vec!["/src/a".to_owned(), "/src/d".to_owned()];
    let ok = vec!["/dst/a".to_owned(), "/dst/d".to_owned()];
    assert!(check_paste_destinations(&entries, &sources, &ok, &vec![false, false]).is_ok());
    assert!(matches!(
        check_paste_destinations(&entries, &sources, &ok, &vec![false, true]),
        Err(ClipError::DestinationExists { destination }) if destination == "/dst/d"
    ));
    let nested = vec!["/dst/a".to_owned(), "/src/d/inner".to_owned()];
    assert!(matches!(
        check_paste_destinations(&entries, &sources, &nested, &vec![false, false]),
        Err(ClipError::DirectoryInsideItself { destination }) if destination == "/src/d/inner"
    ));
    let sibling = vec!["/dst/a".to_owned(), "/src/dd".to_owned()];
    assert!(check_paste_destinations(&entries, &sources, &sibling, &vec![false, false]).is_ok());
}

#[test]
fn directory_children_are_files_or_directories() {
    assert!(matches!(directory_child_action(true, false, true), Err(ClipError::SymbolicLinkInDirectory)));
    assert!(matches!(directory_child_action(false, true, false), Ok(ChildAction::CopyDirectory)));
    assert!(matches!(directory_child_action(false, false, true), Ok(ChildAction::CopyFile)));
    assert!(matches!(directory_child_action(false, false, false), Err(ClipError::SpecialFile)));
}
