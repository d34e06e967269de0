//! The rows that `list` and the bare command print.
use vstd::prelude::*;
use crate::history::{ClipEntry, EntryKind, EntryView, History, Store, entry_location};
use crate::pathname::{Platform, display_path, extension, path_extension, shown_path};
use crate::text::{decimal, preview_of, push_decimal, text_preview};

verus! {

pub open spec fn text_label() -> Seq<char> {
    seq!['t', 'e', 'x', 't']
}

pub open spec fn directory_label() -> Seq<char> {
    seq!['d', 'i', 'r', 'e', 'c', 't', 'o', 'r', 'y']
}

pub open spec fn file_label() -> Seq<char> {
    seq!['f', 'i', 'l', 'e']
}

/// The type column of a row: `text`, `directory`, or for a file the
/// extension of its source path (of its name when it has none), `file` when
/// that path has no non-empty extension.
pub open spec fn type_label(e: EntryView) -> Seq<char> {
    match e.kind {
        EntryKind::Text => text_label(),
        EntryKind::Directory => directory_label(),
        EntryKind::File => {
            let p = match e.system_source {
                Some(s) => s,
                None => e.name,
            };
            match path_extension(p) {
                Some(x) => if x.len() > 0 {
                    x
                } else {
                    file_label()
                },
                None => file_label(),
            }
        },
    }
}

pub fn display_type(entry: &ClipEntry) -> (label: String)
    ensures
        label@ == type_label(entry@),
{
    proof {
        reveal_strlit("text");
        reveal_strlit("directory");
        reveal_strlit("file");
    }
    assert("text"@ =~= text_label());
    assert("directory"@ =~= directory_label());
    assert("file"@ =~= file_label());
    match entry.kind {
        EntryKind::Text => "text".to_owned(),
        EntryKind::Directory => "directory".to_owned(),
        EntryKind::File => {
            let ext = match &entry.system_source {
                Some(source) => extension(source),
                None => extension(&entry.name),
            };
            match ext {
                Some(x) => if x.as_str().is_empty() {
                    "file".to_owned()
                } else {
                    x
                },
                None => "file".to_owned(),
            }
        },
    }
}

/// The content column of a row: a text's preview; for a file or directory
/// its source path, else where its content lies, else its name, each path
/// shown as on `platform`.
pub open spec fn content_label(items_dir: Seq<char>, e: EntryView, platform: Platform) -> Seq<char> {
    match e.kind {
        EntryKind::Text => preview_of(
            match e.system_text {
                Some(t) => t,
                None => Seq::empty(),
            },
        ),
        _ => match e.system_source {
            Some(s) => shown_path(s, platform),
            None => match entry_location(items_dir, e) {
                Some(p) => shown_path(p, platform),
                None => e.name,
            },
        },
    }
}

pub fn display_content(store: &Store, entry: &ClipEntry, platform: Platform) -> (label: String)
    ensures
        label@ == content_label(store.items_dir@, entry@, platform),
{
    match entry.kind {
        EntryKind::Text => match &entry.system_text {
            Some(t) => text_preview(t.as_str()),
            None => {
                proof {
                    reveal_strlit("");
                }
                assert(""@ =~= Seq::<char>::empty());
                text_preview("")
            },
        },
        _ => match &entry.system_source {
            Some(source) => display_path(source.as_str(), platform),
            None => match store.entry_path(entry) {
                Ok(p) => display_path(p.as_str(), platform),
                Err(_) => entry.name.clone(),
            },
        },
    }
}

/// The row of the entry `index` places back from the newest:
/// `[index][type] content`.
pub open spec fn row_of(items_dir: Seq<char>, history: Seq<EntryView>, index: int, platform: Platform) -> Seq<char> {
    let e = history[history.len() - 1 - index];
    seq!['['] + decimal(index as nat) + seq![']', '['] + type_label(e) + seq![']', ' ']
        + content_label(items_dir, e, platform)
}

/// What a listing prints when the history is empty.
pub open spec fn empty_history_message() -> Seq<char> {
    seq!['C', 'l', 'i', 'p', 'b', 'o', 'a', 'r', 'd', ' ', 'h', 'i', 's', 't', 'o', 'r', 'y', ' ', 'i', 's', ' ', 'e', 'm', 'p', 't', 'y', '.']
}

fn row(store: &Store, entry: &ClipEntry, index: usize, platform: Platform) -> (line: String)
    ensures
        line@ == seq!['['] + decimal(index as nat) + seq![']', '['] + type_label(entry@) + seq![']', ' ']
            + content_label(store.items_dir@, entry@, platform),
{
    let mut line = String::new();
    crate::text::push_char(&mut line, '[');
    push_decimal(&mut line, index as u128);
    crate::text::push_char(&mut line, ']');
    crate::text::push_char(&mut line, '[');
    let label = display_type(entry);
    line.append(label.as_str());
    crate::text::push_char(&mut line, ']');
    crate::text::push_char(&mut line, ' ');
    let content = display_content(store, entry, platform);
    line.append(content.as_str());
    assert(line@ =~= seq!['['] + decimal(index as nat) + seq![']', '['] + type_label(entry@) + seq![']', ' ']
        + content_label(store.items_dir@, entry@, platform));
    line
}

/// The lines that listing the `number` newest items prints: nothing for 0,
/// a notice for an empty history, else one row per item, newest first.
pub fn list_history(store: &Store, history: &History, number: usize, platform: Platform) -> (lines: Vec<String>)
    ensures
        number == 0 ==> lines@.len() == 0,
        number > 0 && history@.len() == 0 ==> lines@.len() == 1 && lines@[0]@ == empty_history_message(),
        number > 0 && history@.len() > 0 ==> {
            &&& lines@.len() == (if number < history@.len() { number as int } else { history@.len() as int })
            &&& forall|i: int| 0 <= i < lines@.len() ==> #[trigger] lines@[i]@ == row_of(store.items_dir@, history@, i, platform)
        },
{
    let mut lines: Vec<String> = Vec::new();
    if number == 0 {
        return lines;
    }
    let n = history.entries.len();
    if n == 0 {
        proof {
            reveal_strlit("Clipboard history is empty.");
        }
        assert("Clipboard history is empty."@ =~= empty_history_message());
        lines.push("Clipboard history is empty.".to_owned());
        return lines;
    }
    let count = if number < n { number } else { n };
    let mut i: usize = 0;
    while i < count
        invariant
            n == history.entries@.len(),
            n == history@.len(),
            count <= n,
            i <= count,
            lines@.len() == i,
            forall|j: int| 0 <= j < i ==> #[trigger] lines@[j]@ == row_of(store.items_dir@, history@, j, platform),
        decreases count - i,
    {
        let entry = &history.entries[n - 1 - i];
        assert(history@[n - 1 - i] == entry@);
        let line = row(store, entry, i, platform);
        lines.push(line);
        i = i + 1;
    }
    lines
}

} // verus!
