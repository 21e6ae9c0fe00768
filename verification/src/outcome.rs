//! What the caller reports back from the file system, and what it is asked
//! to write there. These are the plain values that pass between the library
//! and the code that touches the disk.

use vstd::prelude::*;

verus! {

/// What listing a directory gave.
#[derive(Debug)]
pub enum Listing {
    /// The directory does not exist.
    Missing,
    /// The directory could not be listed.
    Failed,
    /// The names of its entries, hidden ones included, in no particular order.
    Entries(Vec<String>),
}

/// What reading a file gave.
#[derive(Debug)]
pub enum FileRead {
    /// The file does not exist.
    Missing,
    /// The file could not be read.
    Failed,
    /// The bytes of the file.
    Contents(Vec<u8>),
}

/// What stands at a path.
#[derive(Clone, Copy, Debug, PartialEq, Eq, Structural)]
pub enum Found {
    /// Nothing.
    Nothing,
    /// A file.
    File,
    /// A directory.
    Directory,
}

/// What removing a file or a directory gave.
#[derive(Clone, Copy, Debug, PartialEq, Eq, Structural)]
pub enum Removal {
    /// It is gone.
    Removed,
    /// It was gone already.
    Missing,
    /// It could not be removed.
    Failed,
}

/// A file that was asked for, and what reading it gave.
#[derive(Debug)]
pub struct LoadedFile {
    pub path: String,
    pub read: FileRead,
}

/// Mathematical value of a [`FileRead`].
pub enum FileReadView {
    Missing,
    Failed,
    Contents(Seq<u8>),
}

impl View for FileRead {
    type V = FileReadView;

    open spec fn view(&self) -> FileReadView {
        match self {
            FileRead::Missing => FileReadView::Missing,
            FileRead::Failed => FileReadView::Failed,
            FileRead::Contents(bytes) => FileReadView::Contents(bytes@),
        }
    }
}

/// Mathematical value of a [`LoadedFile`].
pub struct LoadedFileView {
    pub path: Seq<char>,
    pub read: FileReadView,
}

impl View for LoadedFile {
    type V = LoadedFileView;

    open spec fn view(&self) -> LoadedFileView {
        LoadedFileView { path: self.path@, read: self.read@ }
    }
}

/// The views of a sequence of loaded files.
pub open spec fn files_of(files: Seq<LoadedFile>) -> Seq<LoadedFileView> {
    files.map_values(|file: LoadedFile| file@)
}

/// A file to write: create `directory` if it is not there, then replace what
/// `path` holds by `contents`.
#[derive(Debug)]
pub struct FileWrite {
    pub directory: String,
    pub path: String,
    pub contents: Vec<u8>,
}

/// Mathematical value of a [`FileWrite`].
pub struct FileWriteView {
    pub directory: Seq<char>,
    pub path: Seq<char>,
    pub contents: Seq<u8>,
}

impl View for FileWrite {
    type V = FileWriteView;

    open spec fn view(&self) -> FileWriteView {
        FileWriteView { directory: self.directory@, path: self.path@, contents: self.contents@ }
    }
}

} // verus!
