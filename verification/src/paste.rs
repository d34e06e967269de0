//! What `paste` decides: whether the selection is text, where each item
//! goes, and whether any destination is refused.
use vstd::prelude::*;
use crate::error::ClipError;
use crate::text::{chars_of, push_chars};
use crate::history::{ClipEntry, EntryKind, EntryView, entry_views};
use crate::pathname::{absolute_in, absolute_path, ends_with_separator, has_trailing_separator, join,
    path_joined, path_starts_with, starts_with};

verus! {

/// Text is written to standard output, so a text paste takes no destination.
pub fn validate_text_paste_target(target: Option<&str>) -> (result: Result<(), ClipError>)
    ensures
        match target {
            None => result is Ok,
            Some(t) => result matches Err(ClipError::TextDestination { target: s }) && s@ == t@,
        },
{
    match target {
        Some(t) => Err(ClipError::TextDestination { target: t.to_owned() }),
        None => Ok(()),
    }
}

/// Whether a selection holds a text entry.
pub open spec fn has_text(selection: Seq<EntryView>) -> bool {
    exists|i: int| 0 <= i < selection.len() && selection[i].kind == EntryKind::Text
}

fn contains_text(selection: &Vec<ClipEntry>) -> (found: bool)
    ensures
        found == has_text(entry_views(selection@)),
{
    let ghost views = entry_views(selection@);
    let mut i: usize = 0;
    while i < selection.len()
        invariant
            views == entry_views(selection@),
            i <= selection@.len(),
            forall|j: int| 0 <= j < i ==> views[j].kind != EntryKind::Text,
        decreases selection@.len() - i,
    {
        if selection[i].kind == EntryKind::Text {
            assert(views[i as int].kind == EntryKind::Text);
            return true;
        }
        i = i + 1;
    }
    false
}

/// Decides whether `selection` is pasted as text: `Ok(true)` when it is one
/// text entry and no destination is given, `Ok(false)` when it holds no
/// text; a text entry together with other items, or text with a
/// destination, is refused.
pub fn text_paste_selection(selection: &Vec<ClipEntry>, target: Option<&str>) -> (result: Result<bool, ClipError>)
    ensures
        !has_text(entry_views(selection@)) ==> result == Ok::<bool, ClipError>(false),
        has_text(entry_views(selection@)) && selection@.len() != 1 ==> result matches Err(ClipError::TextWithOtherItems),
        has_text(entry_views(selection@)) && selection@.len() == 1 ==> match target {
            None => result == Ok::<bool, ClipError>(true),
            Some(t) => result matches Err(ClipError::TextDestination { target: s }) && s@ == t@,
        },
{
    let found = contains_text(selection);
    if !found {
        return Ok(false);
    }
    if selection.len() != 1 {
        return Err(ClipError::TextWithOtherItems);
    }
    validate_text_paste_target(target)?;
    Ok(true)
}

/// The names of the items of a selection, joined to `dir`.
pub open spec fn names_under(dir: Seq<char>, selection: Seq<EntryView>) -> Seq<Seq<char>> {
    selection.map_values(|e: EntryView| path_joined(dir, e.name))
}

/// The directory that a target ending in separators names: the target
/// without its trailing `/` and `\` characters, except that a root such as
/// `/` or `C:\` is kept as it is.
pub open spec fn directory_of_target(t: Seq<char>) -> Seq<char>
    decreases t.len(),
{
    if t.len() >= 2 && ends_with_separator(t) && t[t.len() - 2] != ':' {
        directory_of_target(t.drop_last())
    } else {
        t
    }
}

fn trim_trailing_separators(t: &str) -> (dir: String)
    ensures
        dir@ == directory_of_target(t@),
{
    let chars = chars_of(t);
    let mut end = chars.len();
    assert(chars@.take(end as int) =~= t@);
    while end >= 2 && (chars[end - 1] == '/' || chars[end - 1] == '\\') && chars[end - 2] != ':'
        invariant
            end <= chars@.len(),
            chars@ == t@,
            directory_of_target(t@) == directory_of_target(chars@.take(end as int)),
        decreases end,
    {
        assert(chars@.take(end as int).drop_last() =~= chars@.take(end - 1));
        end = end - 1;
    }
    let mut dir = String::new();
    push_chars(&mut dir, &chars, 0, end);
    assert(dir@ =~= chars@.take(end as int));
    dir
}

/// Where each item of `selection` is pasted: with no target, under the
/// current directory; with a target that ends in a separator, under the
/// directory that it names (see `directory_of_target`); a single item with any other target goes to exactly that path,
/// and several items with such a target are refused.
pub open spec fn destinations_of(target: Option<Seq<char>>, selection: Seq<EntryView>, current_dir: Seq<char>) -> Option<Seq<Seq<char>>> {
    match target {
        None => Some(names_under(current_dir, selection)),
        Some(t) => if selection.len() == 1 && !ends_with_separator(t) {
            Some(seq![absolute_in(current_dir, t)])
        } else if ends_with_separator(t) {
            Some(names_under(absolute_in(current_dir, directory_of_target(t)), selection))
        } else {
            None
        },
    }
}

pub open spec fn opt_str(o: Option<&str>) -> Option<Seq<char>> {
    match o {
        Some(s) => Some(s@),
        None => None,
    }
}

fn names_joined(dir: &str, selection: &Vec<ClipEntry>) -> (paths: Vec<String>)
    ensures
        paths@.map_values(|p: String| p@) == names_under(dir@, entry_views(selection@)),
{
    let mut paths: Vec<String> = Vec::new();
    let mut i: usize = 0;
    while i < selection.len()
        invariant
            i <= selection@.len(),
            paths@.len() == i,
            forall|j: int| 0 <= j < i ==> #[trigger] paths@[j]@ == path_joined(dir@, selection@[j].name@),
        decreases selection@.len() - i,
    {
        paths.push(join(dir, selection[i].name.as_str()));
        i = i + 1;
    }
    assert(paths@.map_values(|p: String| p@) =~= names_under(dir@, entry_views(selection@)));
    paths
}

/// A paste that is not refused has exactly one destination per item, so
/// every item is checked and copied.
pub proof fn lemma_one_destination_per_item(target: Option<Seq<char>>, selection: Seq<EntryView>, current_dir: Seq<char>)
    requires
        destinations_of(target, selection, current_dir) is Some,
    ensures
        destinations_of(target, selection, current_dir)->0.len() == selection.len(),
{
}

pub fn paste_destinations(target: Option<&str>, selection: &Vec<ClipEntry>, current_dir: &str) -> (result: Result<Vec<String>, ClipError>)
    ensures
        match result {
            Ok(paths) => destinations_of(opt_str(target), entry_views(selection@), current_dir@) == Some(paths@.map_values(|p: String| p@)),
            Err(err) => destinations_of(opt_str(target), entry_views(selection@), current_dir@) is None
                && (err matches ClipError::FileDestinationForMany { count: c, target: t } && c == selection@.len() && opt_str(target) == Some(t@)),
        },
{
    match target {
        None => Ok(names_joined(current_dir, selection)),
        Some(t) => {
            let directory_target = has_trailing_separator(t);
            if selection.len() == 1 && !directory_target {
                let paths = vec![absolute_path(current_dir, t)];
                assert(paths@.map_values(|p: String| p@) =~= seq![absolute_in(current_dir@, t@)]);
                Ok(paths)
            } else if directory_target {
                let named = trim_trailing_separators(t);
                let directory = absolute_path(current_dir, named.as_str());
                Ok(names_joined(directory.as_str(), selection))
            } else {
                Err(ClipError::FileDestinationForMany { count: selection.len(), target: t.to_owned() })
            }
        },
    }
}

/// The order in which the first `copied` items of a paste are removed again
/// when a later copy fails: newest first.
pub fn rollback_order(copied: usize) -> (order: Vec<usize>)
    ensures
        order@.len() == copied,
        forall|i: int| 0 <= i < copied ==> #[trigger] order@[i] == copied - 1 - i,
{
    let mut order: Vec<usize> = Vec::new();
    let mut k = copied;
    while k > 0
        invariant
            k <= copied,
            order@.len() == copied - k,
            forall|i: int| 0 <= i < order@.len() ==> #[trigger] order@[i] == copied - 1 - i,
        decreases k,
    {
        k = k - 1;
        order.push(k);
    }
    order
}

/// Whether pasting the item with `kind` from `source` to `destination`
/// is refused: an existing destination is never overwritten, and a
/// directory is never pasted inside itself.
pub open spec fn paste_conflict(kind: EntryKind, source: Seq<char>, destination: Seq<char>, occupied: bool) -> bool {
    occupied || (kind == EntryKind::Directory && path_starts_with(destination, source))
}

/// The number of items that a paste pairs up: the shortest of the lists.
pub open spec fn paired_len(a: int, b: int, c: int, d: int) -> int {
    let ab = if a < b { a } else { b };
    let cd = if c < d { c } else { d };
    if ab < cd { ab } else { cd }
}

/// Checks every item before anything is copied; `occupied[i]` says whether
/// `destinations[i]` is already there. The first refused item decides the
/// error.
pub fn check_paste_destinations(
    selection: &Vec<ClipEntry>,
    sources: &Vec<String>,
    destinations: &Vec<String>,
    occupied: &Vec<bool>,
) -> (result: Result<(), ClipError>)
    ensures
        ({
            let k = paired_len(selection@.len() as int, sources@.len() as int, destinations@.len() as int, occupied@.len() as int);
            match result {
                Ok(()) => forall|i: int| 0 <= i < k ==> !paste_conflict(#[trigger] selection@[i].kind, sources@[i]@, destinations@[i]@, occupied@[i]),
                Err(err) => exists|i: int| {
                    &&& 0 <= i < k
                    &&& #[trigger] paste_conflict(selection@[i].kind, sources@[i]@, destinations@[i]@, occupied@[i])
                    &&& forall|j: int| 0 <= j < i ==> !paste_conflict(#[trigger] selection@[j].kind, sources@[j]@, destinations@[j]@, occupied@[j])
                    &&& if occupied@[i] {
                        err matches ClipError::DestinationExists { destination: d } && d@ == destinations@[i]@
                    } else {
                        err matches ClipError::DirectoryInsideItself { destination: d } && d@ == destinations@[i]@
                    }
                },
            }
        }),
{
    let ghost k = paired_len(selection@.len() as int, sources@.len() as int, destinations@.len() as int, occupied@.len() as int);
    let mut i: usize = 0;
    while i < selection.len() && i < sources.len() && i < destinations.len() && i < occupied.len()
        invariant
            k == paired_len(selection@.len() as int, sources@.len() as int, destinations@.len() as int, occupied@.len() as int),
            i <= k,
            forall|j: int| 0 <= j < i ==> !paste_conflict(#[trigger] selection@[j].kind, sources@[j]@, destinations@[j]@, occupied@[j]),
        decreases k - i,
    {
        if occupied[i] {
            assert(paste_conflict(selection@[i as int].kind, sources@[i as int]@, destinations@[i as int]@, occupied@[i as int]));
            return Err(ClipError::DestinationExists { destination: destinations[i].clone() });
        }
        let inside = starts_with(destinations[i].as_str(), sources[i].as_str());
        if selection[i].kind == EntryKind::Directory && inside {
            assert(paste_conflict(selection@[i as int].kind, sources@[i as int]@, destinations@[i as int]@, occupied@[i as int]));
            return Err(ClipError::DirectoryInsideItself { destination: destinations[i].clone() });
        }
        i = i + 1;
    }
    Ok(())
}

/// What copying a directory does with one of its children.
#[derive(Clone, Copy, Debug, PartialEq, Eq, Structural)]
pub enum ChildAction {
    /// Copy the child directory and what it holds.
    CopyDirectory,
    /// Copy the child file.
    CopyFile,
}

/// The action for a child of a copied directory, from what the file system
/// says of it: symbolic links and special files are refused.
pub fn directory_child_action(is_symlink: bool, is_dir: bool, is_file: bool) -> (result: Result<ChildAction, ClipError>)
    ensures
        is_symlink ==> result matches Err(ClipError::SymbolicLinkInDirectory),
        !is_symlink && is_dir ==> result == Ok::<ChildAction, ClipError>(ChildAction::CopyDirectory),
        !is_symlink && !is_dir && is_file ==> result == Ok::<ChildAction, ClipError>(ChildAction::CopyFile),
        !is_symlink && !is_dir && !is_file ==> result matches Err(ClipError::SpecialFile),
{
    if is_symlink {
        Err(ClipError::SymbolicLinkInDirectory)
    } else if is_dir {
        Ok(ChildAction::CopyDirectory)
    } else if is_file {
        Ok(ChildAction::CopyFile)
    } else {
        Err(ClipError::SpecialFile)
    }
}


/// A target that ends in `/` or `\` names a directory, whatever the number
/// of items: every item is pasted into that directory under its own name,
/// one destination per item and in the order of the selection.
pub proof fn lemma_separator_target_pastes_into_directory(target: Seq<char>, selection: Seq<EntryView>, current_dir: Seq<char>)
    requires
        target.len() > 0,
        target.last() == '/' || target.last() == '\\',
    ensures
        destinations_of(Some(target), selection, current_dir) is Some,
        destinations_of(Some(target), selection, current_dir)->0.len() == selection.len(),
        forall|i: int| 0 <= i < selection.len() ==> #[trigger] destinations_of(Some(target), selection, current_dir)->0[i]
            == path_joined(absolute_in(current_dir, directory_of_target(target)), selection[i].name),
{
}

/// The directory that a separator-ended target names is the target with
/// some trailing separators removed: a non-empty prefix of the target,
/// followed in the target only by `/` and `\`, and ending in a separator
/// only when it is a root (`/`, or a separator after `:`).
pub proof fn lemma_directory_of_target_drops_trailing_separators(target: Seq<char>)
    requires
        target.len() > 0,
    ensures
        ({
            let d = directory_of_target(target);
            &&& 0 < d.len() <= target.len()
            &&& target.take(d.len() as int) == d
            &&& forall|k: int| d.len() <= k < target.len() ==> target[k] == '/' || target[k] == '\\'
            &&& (d.last() == '/' || d.last() == '\\') ==> (d.len() == 1 || d[d.len() - 2] == ':')
        }),
    decreases target.len(),
{
    if target.len() >= 2 && ends_with_separator(target) && target[target.len() - 2] != ':' {
        let rest = target.drop_last();
        lemma_directory_of_target_drops_trailing_separators(rest);
        let d = directory_of_target(rest);
        assert(target.take(d.len() as int) =~= rest.take(d.len() as int));
        assert forall|k: int| d.len() <= k < target.len() implies target[k] == '/' || target[k] == '\\' by {
            if k < rest.len() {
                assert(target[k] == rest[k]);
            }
        }
    } else {
        assert(target.take(target.len() as int) =~= target);
    }
}

/// A single item with a target that does not end in a separator goes to
/// exactly that target (taken relative to the current directory).
pub proof fn lemma_single_item_exact_target(target: Seq<char>, selection: Seq<EntryView>, current_dir: Seq<char>)
    requires
        selection.len() == 1,
        !(target.len() > 0 && (target.last() == '/' || target.last() == '\\')),
    ensures
        destinations_of(Some(target), selection, current_dir) == Some(seq![absolute_in(current_dir, target)]),
{
}

} // verus!
