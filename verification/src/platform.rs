//! The system clipboard bridge and the default-application launcher: what
//! to import from the clipboard, what to publish to it, and which command
//! opens a file.
use vstd::prelude::*;
use crate::error::ClipError;
use crate::history::{EntryView, History};
use crate::pathname::{Platform, path_equal, same_path};
use crate::text::{decode_utf16_lossy, encode_utf16, nul_position, units_before_nul, utf16_decode_lossy,
    utf16_encode, lemma_encode_has_no_nul, lemma_utf16_roundtrip};

verus! {

/// Whether an entry records `path` as its source: its source is the same
/// path, compared component by component.
pub open spec fn records_path(e: EntryView, path: Seq<char>) -> bool {
    match e.system_source {
        Some(source) => path_equal(source, path),
        None => false,
    }
}

/// Whether the newest entries of the history, in order, record these paths
/// as their sources (then the selection is already imported).
pub open spec fn paths_match(history: Seq<EntryView>, paths: Seq<Seq<char>>) -> bool {
    &&& paths.len() <= history.len()
    &&& forall|i: int| 0 <= i < paths.len() ==> #[trigger] records_path(history[history.len() - paths.len() + i], paths[i])
}

/// Whether the newest entries of the history, in order, hold exactly these
/// path strings as their sources.
pub open spec fn paths_recorded_verbatim(history: Seq<EntryView>, paths: Seq<Seq<char>>) -> bool {
    &&& paths.len() <= history.len()
    &&& forall|i: int| 0 <= i < paths.len() ==> #[trigger] history[history.len() - paths.len() + i].system_source == Some(paths[i])
}

pub fn system_paths_match_history(history: &History, paths: &Vec<String>) -> (matched: bool)
    ensures
        matched == paths_match(history@, paths@.map_values(|p: String| p@)),
        paths_recorded_verbatim(history@, paths@.map_values(|p: String| p@)) ==> matched,
{
    let ghost ps = paths@.map_values(|p: String| p@);
    let n = history.entries.len();
    let k = paths.len();
    if k > n {
        return false;
    }
    let start = n - k;
    let mut i: usize = 0;
    while i < k
        invariant
            n == history@.len(),
            n == history.entries@.len(),
            k == paths@.len(),
            k == ps.len(),
            ps == paths@.map_values(|p: String| p@),
            start == n - k,
            i <= k,
            forall|j: int| 0 <= j < i ==> #[trigger] records_path(history@[n - k + j], ps[j]),
        decreases k - i,
    {
        let entry = &history.entries[start + i];
        assert(history@[n - k + i] == entry@);
        let same = match &entry.system_source {
            Some(source) => same_path(source.as_str(), paths[i].as_str()),
            None => false,
        };
        assert(ps[i as int] == paths@[i as int]@);
        if !same {
            assert(!records_path(history@[n - k + i], ps[i as int]));
            assert(paths_recorded_verbatim(history@, ps) ==> history@[n - k + i].system_source == Some(ps[i as int]));
            return false;
        }
        i = i + 1;
    }
    true
}

/// Whether the newest entry already holds this text.
pub open spec fn text_is_newest(history: Seq<EntryView>, text: Seq<char>) -> bool {
    history.len() > 0 && history.last().system_text == Some(text)
}

/// Whether text found on the system clipboard must be recorded: it is,
/// unless the newest entry already holds it.
pub fn sync_system_text(history: &History, text: &str) -> (record: bool)
    ensures
        record == !text_is_newest(history@, text@),
{
    let n = history.entries.len();
    if n == 0 {
        return true;
    }
    let newest = &history.entries[n - 1];
    assert(history@.last() == newest@);
    match &newest.system_text {
        Some(t) => {
            let same = crate::command::same_text(t.as_str(), text);
            !same
        },
        None => true,
    }
}

/// What the system clipboard holds, as far as the history cares.
pub enum ClipboardContent {
    /// Copied files and directories, by canonical path.
    Files(Vec<String>),
    /// Copied text.
    Text(String),
}

/// What synchronising with the system clipboard does to the history.
#[derive(Clone, Copy, Debug, PartialEq, Eq, Structural)]
pub enum SyncAction {
    /// Nothing new is on the clipboard.
    Nothing,
    /// Record the clipboard's files as one selection.
    RecordFiles,
    /// Record the clipboard's text.
    RecordText,
}

/// Files are imported unless there are none or they are the newest entries
/// already; text is imported unless it is the newest entry's text.
pub open spec fn sync_action_of(history: Seq<EntryView>, content: Option<ClipboardContent>) -> SyncAction {
    match content {
        None => SyncAction::Nothing,
        Some(ClipboardContent::Files(paths)) => if paths@.len() == 0 || paths_match(history, paths@.map_values(|p: String| p@)) {
            SyncAction::Nothing
        } else {
            SyncAction::RecordFiles
        },
        Some(ClipboardContent::Text(t)) => if text_is_newest(history, t@) {
            SyncAction::Nothing
        } else {
            SyncAction::RecordText
        },
    }
}

pub fn sync_windows_system_clipboard(history: &History, content: &Option<ClipboardContent>) -> (action: SyncAction)
    ensures
        action == sync_action_of(history@, *content),
        (content matches Some(ClipboardContent::Files(ps)) && paths_recorded_verbatim(history@, ps@.map_values(|p: String| p@))) ==> action == SyncAction::Nothing,
{
    match content {
        None => SyncAction::Nothing,
        Some(ClipboardContent::Files(paths)) => {
            if paths.len() == 0 || system_paths_match_history(history, paths) {
                SyncAction::Nothing
            } else {
                SyncAction::RecordFiles
            }
        },
        Some(ClipboardContent::Text(t)) => {
            if sync_system_text(history, t.as_str()) {
                SyncAction::RecordText
            } else {
                SyncAction::Nothing
            }
        },
    }
}

/// Once a clipboard selection has been recorded, each path as the source of
/// one new entry and in the same order, the newest entries hold exactly
/// those paths, so (by the contract of `sync_windows_system_clipboard`) the
/// same selection is not imported again.
pub proof fn lemma_recorded_files_are_not_imported_again(
    history: Seq<EntryView>,
    recorded: Seq<EntryView>,
    paths: Seq<Seq<char>>,
)
    requires
        recorded.len() == paths.len(),
        forall|i: int| 0 <= i < paths.len() ==> #[trigger] recorded[i].system_source == Some(paths[i]),
    ensures
        paths_recorded_verbatim(history + recorded, paths),
{
    let h = history + recorded;
    assert forall|i: int| 0 <= i < paths.len() implies #[trigger] h[h.len() - paths.len() + i].system_source == Some(paths[i]) by {
        assert(h[h.len() - paths.len() + i] == recorded[i]);
    }
}

/// Once clipboard text has been recorded, the same text is not imported again.
pub proof fn lemma_recorded_text_is_not_imported_again(history: Seq<EntryView>, e: EntryView, text: Seq<char>)
    requires
        e.system_text == Some(text),
    ensures
        text_is_newest(history.push(e), text),
{
}

// ---------------------------------------------------------------------------
// Payloads of the Windows clipboard
// ---------------------------------------------------------------------------
/// The paths of a file list, each in UTF-16 and ended by a NUL unit.
pub open spec fn path_list_units(paths: Seq<Seq<char>>) -> Seq<u16>
    decreases paths.len(),
{
    if paths.len() == 0 {
        Seq::empty()
    } else {
        path_list_units(paths.drop_last()) + utf16_encode(paths.last()) + seq![0u16]
    }
}

/// The file list that the clipboard is given (after its header): the paths
/// in UTF-16, each ended by a NUL unit, and one more NUL unit at the end. An
/// empty list is refused.
pub fn publish_system_clipboard(paths: &Vec<String>) -> (result: Result<Vec<u16>, ClipError>)
    ensures
        match result {
            Ok(units) => paths@.len() > 0 && units@ == path_list_units(paths@.map_values(|p: String| p@)) + seq![0u16],
            Err(err) => paths@.len() == 0 && err is EmptyFileList,
        },
{
    if paths.len() == 0 {
        return Err(ClipError::EmptyFileList);
    }
    let ghost ps = paths@.map_values(|p: String| p@);
    let mut units: Vec<u16> = Vec::new();
    let mut i: usize = 0;
    assert(ps.take(0) =~= Seq::<Seq<char>>::empty());
    while i < paths.len()
        invariant
            ps == paths@.map_values(|p: String| p@),
            i <= paths@.len(),
            units@ == path_list_units(ps.take(i as int)),
        decreases paths@.len() - i,
    {
        let encoded = encode_utf16(paths[i].as_str());
        let mut k: usize = 0;
        let ghost before = units@;
        while k < encoded.len()
            invariant
                k <= encoded@.len(),
                units@ == before + encoded@.take(k as int),
            decreases encoded@.len() - k,
        {
            units.push(encoded[k]);
            assert(encoded@.take(k + 1) =~= encoded@.take(k as int).push(encoded@[k as int]));
            k = k + 1;
        }
        units.push(0);
        proof {
            assert(encoded@.take(encoded@.len() as int) =~= encoded@);
            assert(ps.take(i + 1).drop_last() =~= ps.take(i as int));
            assert(ps.take(i + 1).last() == paths@[i as int]@);
            assert(units@ =~= path_list_units(ps.take(i + 1)));
        }
        i = i + 1;
    }
    units.push(0);
    assert(ps.take(paths@.len() as int) =~= ps);
    Ok(units)
}

/// The text that the clipboard is given: its UTF-16 encoding, ended by a
/// NUL unit.
pub fn publish_system_clipboard_text(text: &str) -> (units: Vec<u16>)
    ensures
        units@ == utf16_encode(text@).push(0u16),
{
    let mut units = encode_utf16(text);
    units.push(0);
    units
}

/// The text that clipboard memory holds: its UTF-16 units up to the first
/// NUL, decoded with U+FFFD for each unpaired surrogate.
pub open spec fn clipboard_text_of(units: Seq<u16>) -> Seq<char> {
    utf16_decode_lossy(units.take(units_before_nul(units)))
}

pub fn read_unicode_text(units: &Vec<u16>) -> (text: String)
    ensures
        text@ == clipboard_text_of(units@),
{
    let end = nul_position(units);
    decode_utf16_lossy(units, end)
}

proof fn lemma_nul_after_text(a: Seq<u16>)
    requires
        units_before_nul(a) == a.len(),
    ensures
        units_before_nul(a.push(0u16)) == a.len(),
    decreases a.len(),
{
    if a.len() > 0 {
        assert(a[0] != 0);
        assert(a.push(0u16).skip(1) =~= a.skip(1).push(0u16));
        lemma_nul_after_text(a.skip(1));
    } else {
        assert(a.push(0u16)[0] == 0);
    }
}

/// Text without NUL characters that is published to the clipboard reads
/// back unchanged.
pub proof fn lemma_clipboard_text_roundtrip(text: Seq<char>)
    requires
        !text.contains('\0'),
    ensures
        clipboard_text_of(utf16_encode(text).push(0u16)) == text,
{
    let e = utf16_encode(text);
    lemma_encode_has_no_nul(text);
    lemma_nul_after_text(e);
    assert(e.push(0u16).take(e.len() as int) =~= e);
    lemma_utf16_roundtrip(text);
}

// ---------------------------------------------------------------------------
// Opening with the default application
// ---------------------------------------------------------------------------
/// A program to run and its arguments.
pub struct LaunchCommand {
    pub program: String,
    pub args: Vec<String>,
}

/// The command that opens `path` with its default application: `cmd /C
/// start "" <path>` on Windows, `open <path>` on macOS, `xdg-open <path>` on
/// other Unix systems.
pub open spec fn launch_of(path: Seq<char>, platform: Platform) -> Option<(Seq<char>, Seq<Seq<char>>)> {
    match platform {
        Platform::Windows => Some((seq!['c', 'm', 'd'], seq![seq!['/', 'C'], seq!['s', 't', 'a', 'r', 't'], Seq::empty(), path])),
        Platform::MacOs => Some((seq!['o', 'p', 'e', 'n'], seq![path])),
        Platform::OtherUnix => Some((seq!['x', 'd', 'g', '-', 'o', 'p', 'e', 'n'], seq![path])),
        Platform::Unsupported => None,
    }
}

pub fn open_with_default_application(path: &str, platform: Platform) -> (result: Result<LaunchCommand, ClipError>)
    ensures
        match result {
            Ok(cmd) => launch_of(path@, platform) == Some((cmd.program@, cmd.args@.map_values(|a: String| a@))),
            Err(err) => launch_of(path@, platform) is None && err is OpenUnsupported,
        },
{
    proof {
        reveal_strlit("cmd");
        reveal_strlit("/C");
        reveal_strlit("start");
        reveal_strlit("");
        reveal_strlit("open");
        reveal_strlit("xdg-open");
    }
    assert("/C"@ =~= seq!['/', 'C']);
    assert("start"@ =~= seq!['s', 't', 'a', 'r', 't']);
    assert(""@ =~= Seq::<char>::empty());
    match platform {
        Platform::Windows => {
            let args = vec!["/C".to_owned(), "start".to_owned(), "".to_owned(), path.to_owned()];
            let cmd = LaunchCommand { program: "cmd".to_owned(), args };
            assert(cmd.args@.map_values(|a: String| a@) =~= seq![seq!['/', 'C'], seq!['s', 't', 'a', 'r', 't'], Seq::<char>::empty(), path@]);
            assert(cmd.program@ =~= seq!['c', 'm', 'd']);
            Ok(cmd)
        },
        Platform::MacOs => {
            let cmd = LaunchCommand { program: "open".to_owned(), args: vec![path.to_owned()] };
            assert(cmd.args@.map_values(|a: String| a@) =~= seq![path@]);
            assert(cmd.program@ =~= seq!['o', 'p', 'e', 'n']);
            Ok(cmd)
        },
        Platform::OtherUnix => {
            let cmd = LaunchCommand { program: "xdg-open".to_owned(), args: vec![path.to_owned()] };
            assert(cmd.args@.map_values(|a: String| a@) =~= seq![path@]);
            assert(cmd.program@ =~= seq!['x', 'd', 'g', '-', 'o', 'p', 'e', 'n']);
            Ok(cmd)
        },
        Platform::Unsupported => Err(ClipError::OpenUnsupported),
    }
}


/// Text on the clipboard is recorded exactly when the history is empty or
/// its newest entry does not hold that text; older entries never matter.
pub proof fn lemma_text_recorded_unless_newest(history: Seq<EntryView>, text: String)
    ensures
        (history.len() == 0 || history[history.len() - 1].system_text != Some(text@))
            <==> sync_action_of(history, Some(ClipboardContent::Text(text))) == SyncAction::RecordText,
        (history.len() == 0 || history[history.len() - 1].system_text != Some(text@))
            <==> !text_is_newest(history, text@),
{
}

} // verus!
