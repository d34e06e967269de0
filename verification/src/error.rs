//! The errors of the library; `app/` turns each into a message.
use vstd::prelude::*;

verus! {

#[derive(Debug)]
pub enum ClipError {
    /// A history entry's id or name could escape the cache directory.
    UnsafeComponent,
    /// A reference-only entry has no source path.
    MissingSource,
    /// The history has no item at this index (0 is the newest).
    IndexOutOfRange { index: usize, len: usize },
    /// The file or directory that an entry refers to is gone.
    MissingContent { path: String },
    /// A symbolic link cannot be recorded.
    SymbolicLink,
    /// Only regular files and directories can be recorded.
    UnsupportedFileType,
    /// The source path has no usable final component.
    NoName,
    /// The source path's final component is not a safe name.
    InvalidName { name: String },
    /// A text entry can only be pasted on its own.
    TextWithOtherItems,
    /// Text is written to standard output; a destination is invalid.
    TextDestination { target: String },
    /// Several items need a directory destination (one with a trailing separator).
    FileDestinationForMany { count: usize, target: String },
    /// Pasting never overwrites.
    DestinationExists { destination: String },
    /// A directory cannot be pasted inside itself.
    DirectoryInsideItself { destination: String },
    /// A directory to copy holds a symbolic link.
    SymbolicLinkInDirectory,
    /// A directory to copy holds something that is neither file nor directory.
    SpecialFile,
    /// No command has this name.
    UnregisteredCommand { name: String },
    /// The system clipboard cannot be given an empty file list.
    EmptyFileList,
    /// Neither LOCALAPPDATA nor APPDATA is set.
    NoAppData,
    /// HOME is not set.
    NoHome,
    /// This operating system has no known data directory.
    NoDataDirectory,
    /// This operating system has no known way to open a file.
    OpenUnsupported,
}

} // verus!
