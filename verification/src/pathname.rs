//! Paths as the history stores them: UTF-8 strings, taken apart and put
//! together by `std::path` for the platform the crate is built for.
use vstd::prelude::*;
use crate::text::chars_of;
use crate::text::push_chars;

verus! {

/// The operating systems whose conventions the library knows.
#[derive(Clone, Copy, Debug, PartialEq, Eq, Structural)]
pub enum Platform {
    Windows,
    MacOs,
    /// A Unix system other than macOS.
    OtherUnix,
    /// Any other system.
    Unsupported,
}

/// What `std::path::Path::is_absolute` answers for a path.
pub uninterp spec fn path_is_absolute(path: Seq<char>) -> bool;

/// The path that `std::path::Path::join` makes of `base` and `child`.
pub uninterp spec fn path_joined(base: Seq<char>, child: Seq<char>) -> Seq<char>;

/// The final component that `std::path::Path::file_name` finds in a path.
pub uninterp spec fn path_file_name(path: Seq<char>) -> Option<Seq<char>>;

/// Whether `std::path::Path`'s `==` finds the two paths equal, which
/// compares them component by component.
pub uninterp spec fn path_equal(a: Seq<char>, b: Seq<char>) -> bool;

/// Whether `std::path::Path::starts_with` finds `base` as a leading run of
/// whole components of `path`.
pub uninterp spec fn path_starts_with(path: Seq<char>, base: Seq<char>) -> bool;

/// The characters of an optional string.
pub open spec fn opt_chars(o: Option<String>) -> Option<Seq<char>> {
    match o {
        Some(s) => Some(s@),
        None => None,
    }
}

/// `std::path::Path::is_absolute` on `path`.
#[verifier::external_body]
pub(crate) fn is_absolute(path: &str) -> (b: bool)
    ensures
        b == path_is_absolute(path@),
{
    std::path::Path::new(path).is_absolute()
}

/// `std::path::Path::join` of `base` and `child`. As its documentation says,
/// an absolute `child` replaces `base`.
#[verifier::external_body]
pub(crate) fn join(base: &str, child: &str) -> (joined: String)
    ensures
        joined@ == path_joined(base@, child@),
        path_is_absolute(child@) ==> joined@ == child@,
{
    std::path::Path::new(base).join(child).to_string_lossy().into_owned()
}

/// The index of the last `.` in `name`, or -1 when there is none.
pub open spec fn last_dot(name: Seq<char>) -> int
    decreases name.len(),
{
    if name.len() == 0 {
        -1
    } else if name.last() == '.' {
        name.len() - 1
    } else {
        last_dot(name.drop_last())
    }
}

/// The extension of a file name: what follows its last `.`; none when it
/// has no `.`, or when its only `.` is its first character.
pub open spec fn extension_of_name(name: Seq<char>) -> Option<Seq<char>> {
    if last_dot(name) <= 0 {
        None
    } else {
        Some(name.skip(last_dot(name) + 1))
    }
}

/// The extension of a path: that of its final component, if any.
pub open spec fn path_extension(path: Seq<char>) -> Option<Seq<char>> {
    match path_file_name(path) {
        Some(name) => extension_of_name(name),
        None => None,
    }
}

/// The extension of a file name, as a string.
fn extension_of_file_name(name: &str) -> (ext: Option<String>)
    ensures
        opt_chars(ext) == extension_of_name(name@),
{
    let chars = chars_of(name);
    let mut i = chars.len();
    assert(chars@.take(i as int) =~= chars@);
    while i > 0
        invariant
            i <= chars@.len(),
            chars@ == name@,
            last_dot(chars@) == last_dot(chars@.take(i as int)),
        decreases i,
    {
        if chars[i - 1] == '.' {
            assert(chars@.take(i as int).last() == '.');
            if i == 1 {
                return None;
            }
            let mut ext = String::new();
            push_chars(&mut ext, &chars, i, chars.len());
            assert(ext@ =~= name@.skip(i as int));
            return Some(ext);
        }
        assert(chars@.take(i as int).drop_last() =~= chars@.take(i - 1));
        i = i - 1;
    }
    assert(chars@.take(0).len() == 0);
    None
}

/// The extension of `path`, as `std::path::Path::extension` finds it: none
/// without a file name, none without an embedded `.`, none when the file
/// name begins with `.` and has no other `.`, else the part of the file name
/// after its final `.`.
pub fn extension(path: &str) -> (ext: Option<String>)
    ensures
        opt_chars(ext) == path_extension(path@),
{
    match file_name(path) {
        Some(name) => extension_of_file_name(name.as_str()),
        None => None,
    }
}

/// `std::path::Path::file_name` of `path`, as a string.
#[verifier::external_body]
pub(crate) fn file_name(path: &str) -> (name: Option<String>)
    ensures
        opt_chars(name) == path_file_name(path@),
{
    std::path::Path::new(path).file_name().and_then(|part| part.to_str()).map(str::to_owned)
}

/// `std::path::Path`'s `==` of `a` and `b`. Equal strings are equal paths.
#[verifier::external_body]
pub(crate) fn same_path(a: &str, b: &str) -> (same: bool)
    ensures
        same == path_equal(a@, b@),
        a@ == b@ ==> same,
{
    std::path::Path::new(a) == std::path::Path::new(b)
}

/// `std::path::Path::starts_with` of `path` and `base`.
#[verifier::external_body]
pub(crate) fn starts_with(path: &str, base: &str) -> (b: bool)
    ensures
        b == path_starts_with(path@, base@),
{
    std::path::Path::new(path).starts_with(base)
}

/// A path that ends with `/` or `\` names a directory to paste into.
pub open spec fn ends_with_separator(path: Seq<char>) -> bool {
    path.len() > 0 && (path.last() == '/' || path.last() == '\\')
}

pub fn has_trailing_separator(path: &str) -> (b: bool)
    ensures
        b == ends_with_separator(path@),
{
    let chars = chars_of(path);
    let n = chars.len();
    n > 0 && (chars[n - 1] == '/' || chars[n - 1] == '\\')
}

/// `path` itself when it is absolute, else `path` under `current_dir`.
pub open spec fn absolute_in(current_dir: Seq<char>, path: Seq<char>) -> Seq<char> {
    if path_is_absolute(path) {
        path
    } else {
        path_joined(current_dir, path)
    }
}

pub fn absolute_path(current_dir: &str, path: &str) -> (result: String)
    ensures
        result@ == absolute_in(current_dir@, path@),
{
    if is_absolute(path) {
        path.to_owned()
    } else {
        join(current_dir, path)
    }
}

/// Whether `prefix` is a prefix of `s`.
pub open spec fn has_prefix(s: Seq<char>, prefix: Seq<char>) -> bool {
    prefix.len() <= s.len() && s.take(prefix.len() as int) == prefix
}

/// The Windows prefix that marks a verbatim UNC path: `\\?\UNC\`.
pub open spec fn verbatim_unc_prefix() -> Seq<char> {
    seq!['\\', '\\', '?', '\\', 'U', 'N', 'C', '\\']
}

/// The Windows prefix that marks a verbatim path: `\\?\`.
pub open spec fn verbatim_prefix() -> Seq<char> {
    seq!['\\', '\\', '?', '\\']
}

/// How a path is shown to the user: on Windows without the verbatim prefix
/// that canonical paths carry (`\\?\UNC\server` is shown as `\\server`,
/// `\\?\C:\x` as `C:\x`); elsewhere as it is.
pub open spec fn shown_path(path: Seq<char>, platform: Platform) -> Seq<char> {
    if platform == Platform::Windows && has_prefix(path, verbatim_unc_prefix()) {
        seq!['\\', '\\'] + path.skip(8)
    } else if platform == Platform::Windows && has_prefix(path, verbatim_prefix()) {
        path.skip(4)
    } else {
        path
    }
}

fn starts_with_chars(chars: &Vec<char>, prefix: &Vec<char>) -> (b: bool)
    ensures
        b == has_prefix(chars@, prefix@),
{
    if prefix.len() > chars.len() {
        return false;
    }
    let mut i: usize = 0;
    while i < prefix.len()
        invariant
            prefix@.len() <= chars@.len(),
            i <= prefix@.len(),
            forall|j: int| 0 <= j < i ==> chars@[j] == prefix@[j],
        decreases prefix@.len() - i,
    {
        if chars[i] != prefix[i] {
            assert(chars@.take(prefix@.len() as int)[i as int] != prefix@[i as int]);
            return false;
        }
        i = i + 1;
    }
    assert(chars@.take(prefix@.len() as int) =~= prefix@);
    true
}

pub fn display_path(path: &str, platform: Platform) -> (shown: String)
    ensures
        shown@ == shown_path(path@, platform),
{
    let chars = chars_of(path);
    if platform == Platform::Windows {
        let unc = vec!['\\', '\\', '?', '\\', 'U', 'N', 'C', '\\'];
        assert(unc@ =~= verbatim_unc_prefix());
        if starts_with_chars(&chars, &unc) {
            let mut shown = String::new();
            crate::text::push_char(&mut shown, '\\');
            crate::text::push_char(&mut shown, '\\');
            push_chars(&mut shown, &chars, 8, chars.len());
            assert(shown@ =~= seq!['\\', '\\'] + path@.skip(8));
            return shown;
        }
        let verbatim = vec!['\\', '\\', '?', '\\'];
        assert(verbatim@ =~= verbatim_prefix());
        if starts_with_chars(&chars, &verbatim) {
            let mut shown = String::new();
            push_chars(&mut shown, &chars, 4, chars.len());
            assert(shown@ =~= path@.skip(4));
            return shown;
        }
    }
    path.to_owned()
}

} // verus!
