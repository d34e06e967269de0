//! The clipboard history: its entries, where their content lies, and how
//! entries are found again by index and by selection.
use vstd::prelude::*;
use crate::error::ClipError;
use crate::pathname::{Platform, file_name, join, opt_chars, path_file_name, path_joined, absolute_in,
    absolute_path};
use crate::text::{chars_of, decimal, push_char, push_decimal};

verus! {

/// What an entry holds.
#[derive(Clone, Copy, Debug, PartialEq, Eq, Structural)]
pub enum EntryKind {
    File,
    Directory,
    Text,
}

/// One history item.
#[derive(Debug)]
pub struct ClipEntry {
    /// A unique id; the cache directory of the entry is named after it.
    pub id: String,
    /// The file name that a paste gives the item.
    pub name: String,
    pub kind: EntryKind,
    /// The canonical path of a recorded file or directory.
    pub system_source: Option<String>,
    /// The text of a text entry.
    pub system_text: Option<String>,
    /// The entry refers to `system_source` and has no copy in the cache.
    pub reference_only: bool,
    /// Entries recorded from one selection share a group id.
    pub group: Option<String>,
}

/// The mathematical value of a `ClipEntry`.
pub struct EntryView {
    pub id: Seq<char>,
    pub name: Seq<char>,
    pub kind: EntryKind,
    pub system_source: Option<Seq<char>>,
    pub system_text: Option<Seq<char>>,
    pub reference_only: bool,
    pub group: Option<Seq<char>>,
}

impl View for ClipEntry {
    type V = EntryView;

    open spec fn view(&self) -> EntryView {
        EntryView {
            id: self.id@,
            name: self.name@,
            kind: self.kind,
            system_source: opt_chars(self.system_source),
            system_text: opt_chars(self.system_text),
            reference_only: self.reference_only,
            group: opt_chars(self.group),
        }
    }
}

fn clone_opt(o: &Option<String>) -> (r: Option<String>)
    ensures
        opt_chars(r) == opt_chars(*o),
{
    match o {
        Some(s) => Some(s.clone()),
        None => None,
    }
}

impl ClipEntry {
    /// A copy of the entry with the same value.
    pub fn duplicate(&self) -> (copy: ClipEntry)
        ensures
            copy@ == self@,
    {
        ClipEntry {
            id: self.id.clone(),
            name: self.name.clone(),
            kind: self.kind,
            system_source: clone_opt(&self.system_source),
            system_text: clone_opt(&self.system_text),
            reference_only: self.reference_only,
            group: clone_opt(&self.group),
        }
    }
}

/// The whole history, oldest entry first.
#[derive(Debug)]
pub struct History {
    pub entries: Vec<ClipEntry>,
}

/// The values of a sequence of entries.
pub open spec fn entry_views(entries: Seq<ClipEntry>) -> Seq<EntryView> {
    entries.map_values(|e: ClipEntry| e@)
}

impl View for History {
    type V = Seq<EntryView>;

    open spec fn view(&self) -> Seq<EntryView> {
        entry_views(self.entries@)
    }
}

/// The entry `index` places back from the newest (index 0), if any.
pub open spec fn entry_at(history: Seq<EntryView>, index: int) -> Option<EntryView> {
    if 0 <= index < history.len() {
        Some(history[history.len() - 1 - index])
    } else {
        None
    }
}

impl History {
    pub fn new() -> (h: History)
        ensures
            h@ == Seq::<EntryView>::empty(),
    {
        let h = History { entries: Vec::new() };
        assert(h@ =~= Seq::<EntryView>::empty());
        h
    }

    /// Appends `entry` as the newest item.
    pub fn record(&mut self, entry: ClipEntry)
        ensures
            final(self)@ == old(self)@.push(entry@),
    {
        self.entries.push(entry);
        assert(final(self)@ =~= old(self)@.push(entry@));
    }

    pub fn len(&self) -> (n: usize)
        ensures
            n == self@.len(),
    {
        self.entries.len()
    }
}

/// A history path component is safe when it names one entry of a directory:
/// it is not empty, not `.` or `..`, and holds no path separator.
pub open spec fn safe_component(c: Seq<char>) -> bool {
    &&& c.len() > 0
    &&& c != seq!['.']
    &&& c != seq!['.', '.']
    &&& !c.contains('/')
    &&& !c.contains('\\')
}

pub fn is_safe_component(component: &str) -> (safe: bool)
    ensures
        safe == safe_component(component@),
{
    let chars = chars_of(component);
    let n = chars.len();
    if n == 0 {
        return false;
    }
    let mut i: usize = 0;
    while i < n
        invariant
            n == chars@.len(),
            chars@ == component@,
            i <= n,
            forall|j: int| 0 <= j < i ==> chars@[j] != '/' && chars@[j] != '\\',
        decreases n - i,
    {
        let c = chars[i];
        if c == '/' || c == '\\' {
            assert(component@.contains(c));
            return false;
        }
        i = i + 1;
    }
    if n == 1 && chars[0] == '.' {
        assert(component@ =~= seq!['.']);
        return false;
    }
    if n == 2 && chars[0] == '.' && chars[1] == '.' {
        assert(component@ =~= seq!['.', '.']);
        return false;
    }
    assert(n != 1 || component@ != seq!['.']) by {
        if n == 1 && component@ == seq!['.'] {
            assert(component@[0] == '.');
        }
    }
    assert(n != 2 || component@ != seq!['.', '.']) by {
        if n == 2 && component@ == seq!['.', '.'] {
            assert(component@[0] == '.' && component@[1] == '.');
        }
    }
    true
}


/// The members of a selection: the entry `index` places back from the
/// newest, and with it every entry that shares its group, oldest first.
pub open spec fn selection_of(history: Seq<EntryView>, index: int) -> Option<Seq<EntryView>> {
    match entry_at(history, index) {
        None => None,
        Some(e) => match e.group {
            None => Some(seq![e]),
            Some(g) => Some(history.filter(|x: EntryView| x.group == Some(g))),
        },
    }
}

/// The entry `index` places back from the newest; index 0 is the newest.
pub fn history_entry(history: &History, index: usize) -> (result: Result<ClipEntry, ClipError>)
    ensures
        match result {
            Ok(e) => entry_at(history@, index as int) == Some(e@),
            Err(err) => entry_at(history@, index as int) is None && (err matches ClipError::IndexOutOfRange { index: i, len: n } && i == index && n == history@.len()),
        },
{
    let n = history.entries.len();
    if index < n {
        let e = history.entries[n - 1 - index].duplicate();
        Ok(e)
    } else {
        Err(ClipError::IndexOutOfRange { index, len: n })
    }
}

fn same_group(a: &Option<String>, b: &Option<String>) -> (r: bool)
    ensures
        r == (opt_chars(*a) == opt_chars(*b)),
{
    match (a, b) {
        (Some(x), Some(y)) => x.eq(y),
        (None, None) => true,
        _ => false,
    }
}

/// Pasting by index restores the whole selection: the selection of any
/// existing index holds the entry at that index, and every member shares its
/// group.
pub proof fn lemma_selection_holds_its_entry(history: Seq<EntryView>, index: int)
    requires
        0 <= index < history.len(),
    ensures
        selection_of(history, index) is Some,
        selection_of(history, index)->0.contains(entry_at(history, index)->0),
        forall|k: int| 0 <= k < selection_of(history, index)->0.len()
            ==> (#[trigger] selection_of(history, index)->0[k]).group == (entry_at(history, index)->0).group,
{
    let e = entry_at(history, index)->0;
    match e.group {
        None => {
            assert(seq![e][0] == e);
        },
        Some(g) => {
            let pred = |x: EntryView| x.group == Some(g);
            let sel = history.filter(pred);
            let pos = history.len() - 1 - index;
            assert(history[pos] == e);
            history.lemma_filter_contains(pred, pos);
            assert forall|k: int| 0 <= k < sel.len() implies (#[trigger] sel[k]).group == e.group by {
                history.lemma_filter_pred(pred, k);
            }
        },
    }
}

/// The selection that the entry `index` places back from the newest belongs
/// to: that entry alone when it has no group, else every entry of its group,
/// oldest first.
pub fn history_group(history: &History, index: usize) -> (result: Result<Vec<ClipEntry>, ClipError>)
    ensures
        match result {
            Ok(v) => selection_of(history@, index as int) == Some(entry_views(v@)),
            Err(err) => selection_of(history@, index as int) is None && (err matches ClipError::IndexOutOfRange { index: i, len: n } && i == index && n == history@.len()),
        },
{
    let selected = history_entry(history, index)?;
    if selected.group.is_none() {
        let ghost e = selected@;
        let v = vec![selected];
        assert(entry_views(v@) =~= seq![e]);
        return Ok(v);
    }
    let ghost g = selected@.group->0;
    let ghost pred = |x: EntryView| x.group == Some(g);
    let ghost h = history@;
    let mut members: Vec<ClipEntry> = Vec::new();
    let mut i: usize = 0;
    assert(h.take(0) =~= Seq::<EntryView>::empty());
    proof {
        reveal(Seq::filter);
    }
    assert(entry_views(members@) =~= h.take(0).filter(pred));
    while i < history.entries.len()
        invariant
            h == history@,
            h.len() == history.entries@.len(),
            i <= h.len(),
            opt_chars(selected.group) == Some(g),
            pred == (|x: EntryView| x.group == Some(g)),
            entry_views(members@) == h.take(i as int).filter(pred),
        decreases h.len() - i,
    {
        let entry = &history.entries[i];
        let ghost before = members@;
        proof {
            reveal(Seq::filter);
            assert(h.take(i + 1).drop_last() =~= h.take(i as int));
            assert(h.take(i + 1).last() == entry@);
        }
        if same_group(&entry.group, &selected.group) {
            members.push(entry.duplicate());
            assert(entry_views(members@) =~= entry_views(before).push(entry@));
        }
        i = i + 1;
    }
    assert(h.take(h.len() as int) =~= h);
    Ok(members)
}


/// Recording an entry makes it the newest item (index 0), and every older
/// item moves one index back.
pub proof fn lemma_record_then_read(history: Seq<EntryView>, e: EntryView, index: int)
    ensures
        entry_at(history.push(e), 0) == Some(e),
        0 <= index ==> entry_at(history.push(e), index + 1) == entry_at(history, index),
{
}

// ---------------------------------------------------------------------------
// Where entries live
// ---------------------------------------------------------------------------
/// `items`: the cache directory under the data directory.
pub open spec fn items_dir_name() -> Seq<char> {
    seq!['i', 't', 'e', 'm', 's']
}

/// `history.json`: the history file under the data directory.
pub open spec fn history_file_name() -> Seq<char> {
    seq!['h', 'i', 's', 't', 'o', 'r', 'y', '.', 'j', 's', 'o', 'n']
}

/// `content`: the directory under an entry's cache directory that holds its copy.
pub open spec fn content_dir_name() -> Seq<char> {
    seq!['c', 'o', 'n', 't', 'e', 'n', 't']
}

/// `clipboard.txt`: the name of every text entry.
pub open spec fn text_entry_name() -> Seq<char> {
    seq!['c', 'l', 'i', 'p', 'b', 'o', 'a', 'r', 'd', '.', 't', 'x', 't']
}

/// The cached copy of the entry with this id and name: `items/<id>/content/<name>`.
pub open spec fn content_location(items_dir: Seq<char>, id: Seq<char>, name: Seq<char>) -> Seq<char> {
    path_joined(path_joined(path_joined(items_dir, id), content_dir_name()), name)
}

/// Where the content of an entry lies: the recorded source of a
/// reference-only entry, else its cached copy, provided that its id and
/// name are safe.
pub open spec fn entry_location(items_dir: Seq<char>, e: EntryView) -> Option<Seq<char>> {
    if e.reference_only {
        e.system_source
    } else if safe_component(e.id) && safe_component(e.name) {
        Some(content_location(items_dir, e.id, e.name))
    } else {
        None
    }
}

/// The data directory's layout: the cache directory and the history file.
pub struct Store {
    pub items_dir: String,
    pub history_path: String,
}

impl Store {
    /// The cache directory and the history file under `configured_root`,
    /// taken relative to `current_dir` unless it is absolute.
    pub open spec fn new_view(current_dir: Seq<char>, configured_root: Seq<char>) -> (Seq<char>, Seq<char>) {
        (path_joined(absolute_in(current_dir, configured_root), items_dir_name()),
         path_joined(absolute_in(current_dir, configured_root), history_file_name()))
    }

    /// The layout under `configured_root`, which is taken relative to
    /// `current_dir` unless it is absolute.
    pub fn new(current_dir: &str, configured_root: &str) -> (store: Store)
        ensures
            store.items_dir@ == path_joined(absolute_in(current_dir@, configured_root@), items_dir_name()),
            store.history_path@ == path_joined(absolute_in(current_dir@, configured_root@), history_file_name()),
    {
        let root = absolute_path(current_dir, configured_root);
        proof {
            reveal_strlit("items");
            reveal_strlit("history.json");
        }
        assert("items"@ =~= items_dir_name());
        assert("history.json"@ =~= history_file_name());
        Store { items_dir: join(&root, "items"), history_path: join(&root, "history.json") }
    }

    /// The cached copy of `entry`, when its id and name are safe components.
    pub fn content_path(&self, entry: &ClipEntry) -> (result: Result<String, ClipError>)
        ensures
            match result {
                Ok(p) => safe_component(entry.id@) && safe_component(entry.name@) && p@ == content_location(self.items_dir@, entry.id@, entry.name@),
                Err(err) => !(safe_component(entry.id@) && safe_component(entry.name@)) && err is UnsafeComponent,
            },
    {
        if !is_safe_component(&entry.id) || !is_safe_component(&entry.name) {
            return Err(ClipError::UnsafeComponent);
        }
        proof {
            reveal_strlit("content");
        }
        assert("content"@ =~= content_dir_name());
        let entry_dir = join(&self.items_dir, &entry.id);
        let content_dir = join(&entry_dir, "content");
        Ok(join(&content_dir, &entry.name))
    }

    /// Where the content of `entry` lies.
    pub fn entry_path(&self, entry: &ClipEntry) -> (result: Result<String, ClipError>)
        ensures
            match result {
                Ok(p) => entry_location(self.items_dir@, entry@) == Some(p@),
                Err(err) => entry_location(self.items_dir@, entry@) is None && (if entry.reference_only {
                    err is MissingSource
                } else {
                    err is UnsafeComponent
                }),
            },
    {
        if entry.reference_only {
            match &entry.system_source {
                Some(source) => Ok(source.clone()),
                None => Err(ClipError::MissingSource),
            }
        } else {
            self.content_path(entry)
        }
    }

    /// The cache directory of a new text entry with this id, the directory
    /// that holds its copy, and the copy itself.
    pub fn text_cache_paths(&self, id: &str) -> (paths: (String, String, String))
        ensures
            paths.0@ == path_joined(self.items_dir@, id@),
            paths.1@ == path_joined(paths.0@, content_dir_name()),
            paths.2@ == content_location(self.items_dir@, id@, text_entry_name()),
    {
        proof {
            reveal_strlit("content");
            reveal_strlit("clipboard.txt");
        }
        assert("content"@ =~= content_dir_name());
        assert("clipboard.txt"@ =~= text_entry_name());
        let entry_dir = join(&self.items_dir, id);
        let content_dir = join(&entry_dir, "content");
        let stored = join(&content_dir, "clipboard.txt");
        (entry_dir, content_dir, stored)
    }
}

/// Whether the content of an entry exists, given what the file system says
/// of its path: files and texts need a file, directories a directory.
pub open spec fn content_exists(kind: EntryKind, is_file: bool, is_dir: bool) -> bool {
    match kind {
        EntryKind::File | EntryKind::Text => is_file,
        EntryKind::Directory => is_dir,
    }
}

/// Fails when the content of `entry` at `path` is missing; `is_file` and
/// `is_dir` are what the file system says of `path`.
pub fn ensure_existing_content(path: &str, entry: &ClipEntry, is_file: bool, is_dir: bool) -> (result: Result<(), ClipError>)
    ensures
        result is Ok <==> content_exists(entry.kind, is_file, is_dir),
        result matches Err(err) ==> (err matches ClipError::MissingContent { path: p } && p@ == path@),
{
    let exists = match entry.kind {
        EntryKind::File | EntryKind::Text => is_file,
        EntryKind::Directory => is_dir,
    };
    if !exists {
        return Err(ClipError::MissingContent { path: path.to_owned() });
    }
    Ok(())
}

/// The kind of entry that a source path is recorded as, from what the file
/// system says of it: symbolic links are refused, then files and directories
/// are accepted and anything else refused.
pub fn entry_kind_for(is_symlink: bool, is_file: bool, is_dir: bool) -> (result: Result<EntryKind, ClipError>)
    ensures
        is_symlink ==> result matches Err(ClipError::SymbolicLink),
        !is_symlink && is_file ==> result == Ok::<EntryKind, ClipError>(EntryKind::File),
        !is_symlink && !is_file && is_dir ==> result == Ok::<EntryKind, ClipError>(EntryKind::Directory),
        !is_symlink && !is_file && !is_dir ==> result matches Err(ClipError::UnsupportedFileType),
{
    if is_symlink {
        Err(ClipError::SymbolicLink)
    } else if is_file {
        Ok(EntryKind::File)
    } else if is_dir {
        Ok(EntryKind::Directory)
    } else {
        Err(ClipError::UnsupportedFileType)
    }
}

/// The entry that records a reference to `source` (whose canonical form is
/// `system_source`): it is named after the final component of `source`,
/// which must be a non-empty, safe name.
pub fn reference_entry(
    source: &str,
    kind: EntryKind,
    system_source: &str,
    id: String,
    group: Option<String>,
) -> (result: Result<ClipEntry, ClipError>)
    ensures
        match path_file_name(source@) {
            Some(name) if name.len() > 0 => if safe_component(name) {
                result matches Ok(e) && e@ == (EntryView {
                    id: id@,
                    name,
                    kind,
                    system_source: Some(system_source@),
                    system_text: None,
                    reference_only: true,
                    group: opt_chars(group),
                })
            } else {
                result matches Err(ClipError::InvalidName { name: n }) && n@ == name
            },
            _ => result matches Err(ClipError::NoName),
        },
{
    let name = match file_name(source) {
        Some(name) => name,
        None => return Err(ClipError::NoName),
    };
    if name.as_str().is_empty() {
        return Err(ClipError::NoName);
    }
    if !is_safe_component(&name) {
        return Err(ClipError::InvalidName { name });
    }
    Ok(ClipEntry {
        id,
        name,
        kind,
        system_source: Some(system_source.to_owned()),
        system_text: None,
        reference_only: true,
        group,
    })
}

/// The group of a copied selection: several paths copied together share
/// `group_id`, so that a paste restores all of them; a single path has none.
pub fn copy_selection_group(path_count: usize, group_id: String) -> (group: Option<String>)
    ensures
        path_count > 1 ==> opt_chars(group) == Some(group_id@),
        path_count <= 1 ==> group is None,
{
    if path_count > 1 {
        Some(group_id)
    } else {
        None
    }
}

/// The entry that snapshots `text`; its copy is cached as `clipboard.txt`.
pub fn text_entry(id: String, text: &str) -> (e: ClipEntry)
    ensures
        e@ == (EntryView {
            id: id@,
            name: text_entry_name(),
            kind: EntryKind::Text,
            system_source: None,
            system_text: Some(text@),
            reference_only: false,
            group: None,
        }),
{
    proof {
        reveal_strlit("clipboard.txt");
    }
    assert("clipboard.txt"@ =~= text_entry_name());
    ClipEntry {
        id,
        name: "clipboard.txt".to_owned(),
        kind: EntryKind::Text,
        system_source: None,
        system_text: Some(text.to_owned()),
        reference_only: false,
        group: None,
    }
}

/// An entry id: the time in nanoseconds, `-`, and the process id.
pub open spec fn entry_id_of(nanos: nat, pid: nat) -> Seq<char> {
    decimal(nanos) + seq!['-'] + decimal(pid)
}

pub fn entry_id(nanos: u128, pid: u32) -> (id: String)
    ensures
        id@ == entry_id_of(nanos as nat, pid as nat),
{
    let mut id = String::new();
    push_decimal(&mut id, nanos);
    push_char(&mut id, '-');
    push_decimal(&mut id, pid as u128);
    assert(id@ =~= entry_id_of(nanos as nat, pid as nat));
    id
}

proof fn lemma_decimal_digits(n: nat)
    ensures
        decimal(n).len() > 0,
        forall|k: int| 0 <= k < decimal(n).len() ==> decimal(n)[k] != '/' && decimal(n)[k] != '\\'
            && decimal(n)[k] != '-' && decimal(n)[k] != '.',
    decreases n,
{
    if n >= 10 {
        lemma_decimal_digits(n / 10);
    }
}

/// Every entry id is a safe path component, so the cache of a text entry can
/// always be found again from its id.
pub proof fn lemma_entry_id_is_safe(nanos: nat, pid: nat)
    ensures
        safe_component(entry_id_of(nanos, pid)),
{
    let id = entry_id_of(nanos, pid);
    lemma_decimal_digits(nanos);
    lemma_decimal_digits(pid);
    let a = decimal(nanos);
    let b = decimal(pid);
    assert forall|k: int| 0 <= k < id.len() implies id[k] != '/' && id[k] != '\\' by {
        if k < a.len() {
            assert(id[k] == a[k]);
        } else if k > a.len() {
            assert(id[k] == b[k - a.len() - 1]);
        }
    }
    assert(id[a.len() as int] == '-');
    assert(id != seq!['.']) by {
        if id == seq!['.'] {
            assert(id.len() >= 3);
        }
    }
    assert(id != seq!['.', '.']) by {
        if id == seq!['.', '.'] {
            assert(id[0] == a[0]);
        }
    }
}

/// The text that `snapshot` caches at `text_cache_paths(id).2` is the content
/// that `entry_path` finds again for the entry `text_entry(id, ..)`.
pub proof fn lemma_text_snapshot_is_found_again(items_dir: Seq<char>, nanos: nat, pid: nat, text: Seq<char>)
    ensures
        entry_location(items_dir, EntryView {
            id: entry_id_of(nanos, pid),
            name: text_entry_name(),
            kind: EntryKind::Text,
            system_source: None,
            system_text: Some(text),
            reference_only: false,
            group: None,
        }) == Some(content_location(items_dir, entry_id_of(nanos, pid), text_entry_name())),
{
    lemma_entry_id_is_safe(nanos, pid);
    let n = text_entry_name();
    assert(!n.contains('/')) by {
        if n.contains('/') {
            let k = choose|k: int| 0 <= k < n.len() && n[k] == '/';
        }
    }
    assert(!n.contains('\\')) by {
        if n.contains('\\') {
            let k = choose|k: int| 0 <= k < n.len() && n[k] == '\\';
        }
    }
    assert(n != seq!['.']);
    assert(n != seq!['.', '.']);
}

// ---------------------------------------------------------------------------
// The data directory
// ---------------------------------------------------------------------------
/// The environment variables that decide the data directory.
pub struct DataDirVars {
    pub clb_data_dir: Option<String>,
    pub local_app_data: Option<String>,
    pub app_data: Option<String>,
    pub home: Option<String>,
    pub xdg_data_home: Option<String>,
}

/// `clipboarry`: the data directory's own name.
pub open spec fn data_dir_name() -> Seq<char> {
    seq!['c', 'l', 'i', 'p', 'b', 'o', 'a', 'r', 'r', 'y']
}

/// Where history is kept: `CLB_DATA_DIR` if set; else on Windows
/// `LOCALAPPDATA` (or `APPDATA`)`\clipboarry`; on macOS
/// `HOME/Library/Application Support/clipboarry`; on other Unix systems
/// `XDG_DATA_HOME/clipboarry` or `HOME/.local/share/clipboarry`.
pub open spec fn data_root_of(vars: DataDirVars, platform: Platform) -> Option<Seq<char>> {
    if vars.clb_data_dir is Some {
        Some(vars.clb_data_dir->0@)
    } else {
        match platform {
            Platform::Windows => if vars.local_app_data is Some {
                Some(path_joined(vars.local_app_data->0@, data_dir_name()))
            } else if vars.app_data is Some {
                Some(path_joined(vars.app_data->0@, data_dir_name()))
            } else {
                None
            },
            Platform::MacOs => if vars.home is Some {
                Some(path_joined(path_joined(path_joined(vars.home->0@, seq!['L', 'i', 'b', 'r', 'a', 'r', 'y']),
                    seq!['A', 'p', 'p', 'l', 'i', 'c', 'a', 't', 'i', 'o', 'n', ' ', 'S', 'u', 'p', 'p', 'o', 'r', 't']), data_dir_name()))
            } else {
                None
            },
            Platform::OtherUnix => if vars.xdg_data_home is Some {
                Some(path_joined(vars.xdg_data_home->0@, data_dir_name()))
            } else if vars.home is Some {
                Some(path_joined(path_joined(path_joined(vars.home->0@, seq!['.', 'l', 'o', 'c', 'a', 'l']),
                    seq!['s', 'h', 'a', 'r', 'e']), data_dir_name()))
            } else {
                None
            },
            Platform::Unsupported => None,
        }
    }
}

pub fn data_root(vars: &DataDirVars, platform: Platform) -> (result: Result<String, ClipError>)
    ensures
        match result {
            Ok(root) => data_root_of(*vars, platform) == Some(root@),
            Err(err) => data_root_of(*vars, platform) is None && match platform {
                Platform::Windows => err is NoAppData,
                Platform::Unsupported => err is NoDataDirectory,
                _ => err is NoHome,
            },
        },
{
    if let Some(dir) = &vars.clb_data_dir {
        return Ok(dir.clone());
    }
    proof {
        reveal_strlit("clipboarry");
        reveal_strlit("Library");
        reveal_strlit("Application Support");
        reveal_strlit(".local");
        reveal_strlit("share");
    }
    assert("clipboarry"@ =~= data_dir_name());
    assert("Library"@ =~= seq!['L', 'i', 'b', 'r', 'a', 'r', 'y']);
    assert("Application Support"@ =~= seq!['A', 'p', 'p', 'l', 'i', 'c', 'a', 't', 'i', 'o', 'n', ' ', 'S', 'u', 'p', 'p', 'o', 'r', 't']);
    assert(".local"@ =~= seq!['.', 'l', 'o', 'c', 'a', 'l']);
    assert("share"@ =~= seq!['s', 'h', 'a', 'r', 'e']);
    match platform {
        Platform::Windows => {
            let base = match (&vars.local_app_data, &vars.app_data) {
                (Some(b), _) => b,
                (None, Some(b)) => b,
                (None, None) => return Err(ClipError::NoAppData),
            };
            Ok(join(base, "clipboarry"))
        },
        Platform::MacOs => match &vars.home {
            Some(home) => {
                let library = join(home, "Library");
                let support = join(&library, "Application Support");
                Ok(join(&support, "clipboarry"))
            },
            None => Err(ClipError::NoHome),
        },
        Platform::OtherUnix => {
            let base = match (&vars.xdg_data_home, &vars.home) {
                (Some(b), _) => b.clone(),
                (None, Some(home)) => {
                    let local = join(home, ".local");
                    join(&local, "share")
                },
                (None, None) => return Err(ClipError::NoHome),
            };
            Ok(join(&base, "clipboarry"))
        },
        Platform::Unsupported => Err(ClipError::NoDataDirectory),
    }
}


/// The positions in `h`, in increasing order, of the elements that `pred`
/// keeps: the filtered sequence is exactly those elements in history order.
proof fn filter_positions(h: Seq<EntryView>, pred: spec_fn(EntryView) -> bool) -> (f: Seq<int>)
    ensures
        f.len() == h.filter(pred).len(),
        forall|k: int| 0 <= k < f.len() ==> 0 <= #[trigger] f[k] < h.len() && h[f[k]] == h.filter(pred)[k] && pred(h[f[k]]),
        forall|k: int, l: int| 0 <= k < l < f.len() ==> #[trigger] f[k] < #[trigger] f[l],
        forall|j: int| 0 <= j < h.len() && pred(#[trigger] h[j]) ==> exists|k: int| 0 <= k < f.len() && f[k] == j,
    decreases h.len(),
{
    reveal(Seq::filter);
    if h.len() == 0 {
        Seq::empty()
    } else {
        let prev = filter_positions(h.drop_last(), pred);
        let last = h.len() - 1;
        assert forall|k: int| 0 <= k < prev.len() implies h[prev[k]] == h.drop_last()[prev[k]] by {}
        if pred(h.last()) {
            let f = prev.push(last);
            assert forall|k: int| 0 <= k < f.len() implies 0 <= #[trigger] f[k] < h.len() && h[f[k]] == h.filter(pred)[k] && pred(h[f[k]]) by {
                if k < prev.len() {
                    assert(f[k] == prev[k]);
                    assert(h.drop_last()[prev[k]] == h[prev[k]]);
                }
            }
            assert forall|j: int| 0 <= j < h.len() && pred(#[trigger] h[j]) implies exists|k: int| 0 <= k < f.len() && f[k] == j by {
                if j == last {
                    assert(f[prev.len() as int] == j);
                } else {
                    assert(h.drop_last()[j] == h[j]);
                    let k = choose|k: int| 0 <= k < prev.len() && prev[k] == j;
                    assert(f[k] == j);
                }
            }
            f
        } else {
            assert forall|k: int| 0 <= k < prev.len() implies 0 <= #[trigger] prev[k] < h.len() && h[prev[k]] == h.filter(pred)[k] && pred(h[prev[k]]) by {
                assert(h.drop_last()[prev[k]] == h[prev[k]]);
            }
            assert forall|j: int| 0 <= j < h.len() && pred(#[trigger] h[j]) implies exists|k: int| 0 <= k < prev.len() && prev[k] == j by {
                assert(j != last);
                assert(h.drop_last()[j] == h[j]);
            }
            prev
        }
    }
}

/// The selection of an entry that belongs to a group is that whole group,
/// whatever the kinds of its members: exactly the history entries with that
/// group, oldest first. That is, there are increasing positions of the
/// history whose entries are the members in order, every member has the
/// group, and every history entry with the group is among them.
pub proof fn lemma_selection_is_the_whole_group(history: Seq<EntryView>, index: int, g: Seq<char>)
    requires
        0 <= index < history.len(),
        history[history.len() - 1 - index].group == Some(g),
    ensures
        selection_of(history, index) is Some,
        ({
            let sel = selection_of(history, index)->0;
            exists|f: Seq<int>| {
                &&& f.len() == sel.len()
                &&& forall|k: int| 0 <= k < f.len() ==> 0 <= #[trigger] f[k] < history.len() && history[f[k]] == sel[k]
                    && history[f[k]].group == Some(g)
                &&& forall|k: int, l: int| 0 <= k < l < f.len() ==> #[trigger] f[k] < #[trigger] f[l]
                &&& forall|j: int| 0 <= j < history.len() && (#[trigger] history[j]).group == Some(g)
                    ==> exists|k: int| 0 <= k < f.len() && f[k] == j
            }
        }),
{
    let pred = |x: EntryView| x.group == Some(g);
    assert(selection_of(history, index) == Some(history.filter(pred)));
    let f = filter_positions(history, pred);
    let sel = history.filter(pred);
    assert forall|k: int| 0 <= k < f.len() implies 0 <= #[trigger] f[k] < history.len() && history[f[k]] == sel[k]
        && history[f[k]].group == Some(g) by {
        assert(pred(history[f[k]]));
    }
    assert forall|j: int| 0 <= j < history.len() && (#[trigger] history[j]).group == Some(g)
        implies exists|k: int| 0 <= k < f.len() && f[k] == j by {
        assert(pred(history[j]));
    }
}

/// The content of a file or a text entry exists exactly when its path is a
/// file, that of a directory entry exactly when its path is a directory.
pub proof fn lemma_content_exists_by_kind(is_file: bool, is_dir: bool)
    ensures
        content_exists(EntryKind::File, is_file, is_dir) == is_file,
        content_exists(EntryKind::Text, is_file, is_dir) == is_file,
        content_exists(EntryKind::Directory, is_file, is_dir) == is_dir,
{
}

/// `CLB_DATA_DIR`, when set, is the data directory on every platform,
/// whatever the other variables hold.
pub proof fn lemma_clb_data_dir_overrides(vars: DataDirVars, platform: Platform, dir: String)
    requires
        vars.clb_data_dir == Some(dir),
    ensures
        data_root_of(vars, platform) == Some(dir@),
{
}

} // verus!
