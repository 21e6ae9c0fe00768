//! A model of the directory tree that the library lives in.
//!
//! The library never touches the disk; the caller does, step by step, as the
//! functions of [`crate::commands`] tell it. This module says what those
//! steps amount to on an ideal disk, one on which every call succeeds, and
//! proves what then holds of whole operations: that a save removes nothing,
//! that what was saved is offered by the next load, that the papers of one
//! folder are read from that folder alone, that a second delete changes
//! nothing, and that deleting a paper leaves the rest of its folder alone.

use vstd::prelude::*;
use crate::commands::{
    folder_info_files, folder_removal, lemma_paper_names, paper_names, paper_removal, paths_in,
    removal_outcome, stores_folder, stores_paper,
};
use crate::config::{
    folder_dir, folder_info_file, joined, lemma_entity_names_are_visible,
    lemma_paper_file_is_not_folder_info, paper_file, paper_file_name, valid_paper_id,
    valid_segment,
};
use crate::error::StoreError;
use crate::outcome::{FileReadView, FileWriteView, Found, Removal};
use crate::file::{lemma_visible_names, visible_names};

verus! {

/// Whether `path` is `root` or lies below it.
pub open spec fn within(root: Seq<char>, path: Seq<char>) -> bool {
    path == root || (root + seq!['/']).is_prefix_of(path)
}

/// Whether a name can be that of a directory entry: it is not empty and
/// holds no slash.
pub open spec fn is_entry_name(name: Seq<char>) -> bool {
    name.len() > 0 && forall|i: int| 0 <= i < name.len() ==> #[trigger] name[i] != '/'
}

/// The directories and files of a disk, each under its path.
pub struct Disk {
    pub directories: Set<Seq<char>>,
    pub files: Map<Seq<char>, Seq<u8>>,
}

impl Disk {
    /// No path holds both a file and a directory.
    pub open spec fn wf(self) -> bool {
        forall|path: Seq<char>|
            !(self.directories.contains(path) && #[trigger] self.files.dom().contains(path))
    }

    /// What stands at `path`.
    pub open spec fn found(self, path: Seq<char>) -> Found {
        if self.directories.contains(path) {
            Found::Directory
        } else if self.files.dom().contains(path) {
            Found::File
        } else {
            Found::Nothing
        }
    }

    /// What reading the file at `path` gives.
    pub open spec fn read(self, path: Seq<char>) -> FileReadView {
        if self.files.dom().contains(path) {
            FileReadView::Contents(self.files[path])
        } else {
            FileReadView::Missing
        }
    }

    /// Whether `names` is a listing of `directory`: the directory exists,
    /// and a name is listed exactly if it is an entry name and something
    /// stands under it there.
    pub open spec fn lists(self, directory: Seq<char>, names: Seq<Seq<char>>) -> bool {
        &&& self.directories.contains(directory)
        &&& forall|name: Seq<char>| #[trigger]
            names.contains(name) <==> is_entry_name(name) && self.found(joined(directory, name))
                != Found::Nothing
    }

    /// Whether the disk takes the write: no directory stands in the file's
    /// place, no file stands where the file's directory or one above it has
    /// to be, and the file itself is none of those.
    pub open spec fn takes(self, write: FileWriteView) -> bool {
        &&& !self.directories.contains(write.path)
        &&& !within(write.path, write.directory)
        &&& forall|above: Seq<char>| #[trigger]
            within(above, write.directory) ==> !self.files.dom().contains(above)
    }

    /// The disk after a write: the file's directory exists, with every
    /// directory above it, and the file holds the new contents.
    pub open spec fn write(self, write: FileWriteView) -> Disk {
        Disk {
            directories: Set::new(
                |p: Seq<char>| self.directories.contains(p) || within(p, write.directory),
            ),
            files: self.files.insert(write.path, write.contents),
        }
    }

    /// The disk after a save: the writes of the plan, one after the other.
    pub open spec fn save(self, writes: Seq<FileWriteView>) -> Disk
        decreases writes.len(),
    {
        if writes.len() == 0 {
            self
        } else {
            self.save(writes.drop_last()).write(writes.last())
        }
    }

    /// The disk after the file at `path` is removed.
    pub open spec fn remove_file(self, path: Seq<char>) -> Disk {
        Disk { directories: self.directories, files: self.files.remove(path) }
    }

    /// The disk after the directory at `path` is removed with all it holds.
    pub open spec fn remove_tree(self, path: Seq<char>) -> Disk {
        Disk {
            directories: Set::new(|p: Seq<char>| self.directories.contains(p) && !within(path, p)),
            files: Map::new(
                |p: Seq<char>| self.files.dom().contains(p) && !within(path, p),
                |p: Seq<char>| self.files[p],
            ),
        }
    }

    /// The disk after a folder is deleted: the caller looks at the folder's
    /// path, asks what to remove, and removes it.
    pub open spec fn delete_folder(self, library_dir_path: Seq<char>, folder_id: Seq<char>) -> Disk {
        let found = self.found(folder_dir(library_dir_path, folder_id));
        match folder_removal(library_dir_path, folder_id, found) {
            Ok(Some(path)) => self.remove_tree(path),
            _ => self,
        }
    }

    /// What deleting a folder reports on this disk, where the removal that
    /// is asked for succeeds.
    pub open spec fn delete_folder_result(
        self,
        library_dir_path: Seq<char>,
        folder_id: Seq<char>,
    ) -> Result<(), StoreError> {
        let found = self.found(folder_dir(library_dir_path, folder_id));
        match folder_removal(library_dir_path, folder_id, found) {
            Ok(Some(_)) => removal_outcome(Removal::Removed),
            Ok(None) => Ok(()),
            Err(error) => Err(error),
        }
    }

    /// What deleting a paper reports on this disk.
    pub open spec fn delete_paper_result(
        self,
        library_dir_path: Seq<char>,
        folder_id: Seq<char>,
        paper_id: Seq<char>,
    ) -> Result<(), StoreError> {
        let found = self.found(paper_file(library_dir_path, folder_id, paper_id));
        match paper_removal(library_dir_path, folder_id, paper_id, found) {
            Ok(Some(_)) => removal_outcome(Removal::Removed),
            Ok(None) => Ok(()),
            Err(error) => Err(error),
        }
    }

    /// The disk after a paper is deleted.
    pub open spec fn delete_paper(
        self,
        library_dir_path: Seq<char>,
        folder_id: Seq<char>,
        paper_id: Seq<char>,
    ) -> Disk {
        let found = self.found(paper_file(library_dir_path, folder_id, paper_id));
        match paper_removal(library_dir_path, folder_id, paper_id, found) {
            Ok(Some(path)) => self.remove_file(path),
            _ => self,
        }
    }
}

/// A file that was written holds what was written, and every other file
/// holds what it held.
pub proof fn lemma_write_then_read(disk: Disk, write: FileWriteView, other: Seq<char>)
    requires
        disk.wf(),
        disk.takes(write),
    ensures
        disk.write(write).wf(),
        disk.write(write).found(write.path) == Found::File,
        disk.write(write).read(write.path) == FileReadView::Contents(write.contents),
        disk.write(write).directories.contains(write.directory),
        other != write.path ==> disk.write(write).read(other) == disk.read(other),
{
    assert(within(write.directory, write.directory));
}

/// A save removes nothing: every directory and every file that was on disk
/// is there afterwards, and a file that no write is aimed at holds what it
/// held.
pub proof fn lemma_save_removes_nothing(disk: Disk, writes: Seq<FileWriteView>, path: Seq<char>)
    ensures
        disk.directories.contains(path) ==> disk.save(writes).directories.contains(path),
        disk.files.dom().contains(path) ==> disk.save(writes).files.dom().contains(path),
        (forall|i: int| 0 <= i < writes.len() ==> (#[trigger] writes[i]).path != path)
            ==> disk.save(writes).read(path) == disk.read(path),
    decreases writes.len(),
{
    if writes.len() > 0 {
        lemma_save_removes_nothing(disk, writes.drop_last(), path);
        if forall|i: int| 0 <= i < writes.len() ==> (#[trigger] writes[i]).path != path {
            assert(writes.last() == writes[writes.len() - 1]);
            assert forall|i: int| 0 <= i < writes.drop_last().len() implies (
            #[trigger] writes.drop_last()[i]).path != path by {
                assert(writes.drop_last()[i] == writes[i]);
            }
        }
    }
}

/// Deleting a folder twice in a row, whether or not it was there before
/// the first delete: the second delete leaves the disk as the first left
/// it. If the identifier can name a folder, both deletes report success, and
/// the second finds nothing to remove and asks for no removal. If it cannot,
/// both are refused alike and neither touches the disk.
pub proof fn lemma_delete_folder_twice(
    disk: Disk,
    library_dir_path: Seq<char>,
    folder_id: Seq<char>,
)
    ensures
        ({
            let once = disk.delete_folder(library_dir_path, folder_id);
            let path = folder_dir(library_dir_path, folder_id);
            let first = disk.delete_folder_result(library_dir_path, folder_id);
            let second = once.delete_folder_result(library_dir_path, folder_id);
            &&& once.delete_folder(library_dir_path, folder_id) == once
            &&& valid_segment(folder_id) ==> {
                &&& first == Ok::<(), StoreError>(())
                &&& second == Ok::<(), StoreError>(())
                &&& folder_removal(library_dir_path, folder_id, once.found(path)) == Ok::<
                    Option<Seq<char>>,
                    StoreError,
                >(None)
            }
            &&& !valid_segment(folder_id) ==> {
                &&& first == Err::<(), StoreError>(StoreError::Validation)
                &&& second == first
                &&& once == disk
            }
        }),
{
}

/// Deleting a paper twice in a row, whether or not it was there before the
/// first delete: the second delete leaves the disk as the first left it. If
/// both identifiers can name their entities, both deletes report success,
/// and the second finds nothing to remove and asks for no removal. If not,
/// both are refused alike and neither touches the disk.
pub proof fn lemma_delete_paper_twice(
    disk: Disk,
    library_dir_path: Seq<char>,
    folder_id: Seq<char>,
    paper_id: Seq<char>,
)
    ensures
        ({
            let once = disk.delete_paper(library_dir_path, folder_id, paper_id);
            let path = paper_file(library_dir_path, folder_id, paper_id);
            let first = disk.delete_paper_result(library_dir_path, folder_id, paper_id);
            let second = once.delete_paper_result(library_dir_path, folder_id, paper_id);
            let valid = valid_segment(folder_id) && valid_paper_id(paper_id);
            &&& once.delete_paper(library_dir_path, folder_id, paper_id) == once
            &&& valid ==> {
                &&& first == Ok::<(), StoreError>(())
                &&& second == Ok::<(), StoreError>(())
                &&& paper_removal(library_dir_path, folder_id, paper_id, once.found(path)) == Ok::<
                    Option<Seq<char>>,
                    StoreError,
                >(None)
            }
            &&& !valid ==> {
                &&& first == Err::<(), StoreError>(StoreError::Validation)
                &&& second == first
                &&& once == disk
            }
        }),
{
}

/// Deleting a paper, unless a directory stands in its file's place:
/// afterwards no listing of its folder offers its file as a paper, while
/// the directories, the folder's metadata file and every other file are as
/// they were.
pub proof fn lemma_delete_paper_spares_the_folder(
    disk: Disk,
    library_dir_path: Seq<char>,
    folder_id: Seq<char>,
    paper_id: Seq<char>,
    names: Seq<Seq<char>>,
    other: Seq<char>,
)
    requires
        disk.wf(),
        valid_segment(folder_id),
        valid_paper_id(paper_id),
        disk.delete_paper(library_dir_path, folder_id, paper_id).lists(
            folder_dir(library_dir_path, folder_id),
            names,
        ),
        disk.found(paper_file(library_dir_path, folder_id, paper_id)) != Found::Directory,
    ensures
        ({
            let after = disk.delete_paper(library_dir_path, folder_id, paper_id);
            &&& !paper_names(names).contains(paper_file_name(paper_id))
            &&& after.directories == disk.directories
            &&& after.read(folder_info_file(library_dir_path, folder_id)) == disk.read(
                folder_info_file(library_dir_path, folder_id),
            )
            &&& other != paper_file(library_dir_path, folder_id, paper_id) ==> after.read(other)
                == disk.read(other)
        }),
{
    let after = disk.delete_paper(library_dir_path, folder_id, paper_id);
    let path = paper_file(library_dir_path, folder_id, paper_id);
    let name = paper_file_name(paper_id);
    lemma_paper_file_is_not_folder_info(library_dir_path, folder_id, paper_id, folder_id);
    lemma_paper_names(names, name);
    assert(after.found(path) == Found::Nothing);
    assert(path == joined(folder_dir(library_dir_path, folder_id), name));
}

/// The file name of a paper with a valid identifier is an entry name.
pub proof fn lemma_paper_file_name_is_entry_name(paper_id: Seq<char>)
    requires
        valid_paper_id(paper_id),
    ensures
        is_entry_name(paper_file_name(paper_id)),
{
    reveal_strlit(".dat");
    let name = paper_file_name(paper_id);
    assert forall|i: int| 0 <= i < name.len() implies #[trigger] name[i] != '/' by {
        if i < paper_id.len() {
            assert(name[i] == paper_id[i]);
        }
    }
}

/// A folder whose metadata was written is offered by the next load of the
/// folders: whatever else the library root holds, its listing names the
/// folder, the load asks for the very path that was written, and reading it
/// gives the bytes that were written.
pub proof fn lemma_saved_folder_is_offered(
    disk: Disk,
    library_dir_path: Seq<char>,
    folder_id: Seq<char>,
    write: FileWriteView,
    names: Seq<Seq<char>>,
)
    requires
        disk.wf(),
        disk.takes(write),
        stores_folder(library_dir_path, folder_id, write.directory, write.path),
        disk.write(write).lists(library_dir_path, names),
    ensures
        visible_names(names).contains(folder_id),
        folder_info_files(library_dir_path, names).contains(write.path),
        disk.write(write).read(write.path) == FileReadView::Contents(write.contents),
{
    let folders = visible_names(names);
    assert(is_entry_name(folder_id));
    lemma_visible_names(names, folder_id);
    assert(within(write.directory, write.directory));
    assert(disk.write(write).found(joined(library_dir_path, folder_id)) == Found::Directory);
    assert(names.contains(folder_id));
    let i = choose|i: int| 0 <= i < folders.len() && folders[i] == folder_id;
    assert(folder_info_files(library_dir_path, names)[i] == write.path);
}

/// A paper that was written is offered by the next load of its folder:
/// whatever else the folder's directory holds, its listing names the
/// paper's file, the load asks for the very path that was written, and
/// reading it gives the bytes that were written.
pub proof fn lemma_saved_paper_is_offered(
    disk: Disk,
    library_dir_path: Seq<char>,
    folder_id: Seq<char>,
    paper_id: Seq<char>,
    write: FileWriteView,
    names: Seq<Seq<char>>,
)
    requires
        disk.wf(),
        disk.takes(write),
        stores_paper(library_dir_path, folder_id, paper_id, write.directory, write.path),
        disk.write(write).lists(folder_dir(library_dir_path, folder_id), names),
    ensures
        paper_names(names).contains(paper_file_name(paper_id)),
        paths_in(folder_dir(library_dir_path, folder_id), paper_names(names)).contains(write.path),
        disk.write(write).read(write.path) == FileReadView::Contents(write.contents),
{
    let directory = folder_dir(library_dir_path, folder_id);
    let name = paper_file_name(paper_id);
    let papers = paper_names(names);
    lemma_entity_names_are_visible(folder_id, paper_id);
    lemma_paper_file_name_is_entry_name(paper_id);
    lemma_paper_names(names, name);
    assert(write.path == joined(directory, name));
    assert(disk.write(write).found(joined(directory, name)) != Found::Nothing);
    assert(names.contains(name));
    let i = choose|i: int| 0 <= i < papers.len() && papers[i] == name;
    assert(paths_in(directory, papers)[i] == write.path);
}

/// The papers of one folder are read from that folder's directory and from
/// no other folder's: whatever the listing holds, no path that a load of
/// folder `folder_id` asks for lies within the directory of another folder.
pub proof fn lemma_paper_paths_stay_in_folder(
    library_dir_path: Seq<char>,
    folder_id: Seq<char>,
    other_folder_id: Seq<char>,
    name: Seq<char>,
)
    requires
        valid_segment(folder_id),
        valid_segment(other_folder_id),
        folder_id != other_folder_id,
    ensures
        within(
            folder_dir(library_dir_path, folder_id),
            joined(folder_dir(library_dir_path, folder_id), name),
        ),
        !within(
            folder_dir(library_dir_path, other_folder_id),
            joined(folder_dir(library_dir_path, folder_id), name),
        ),
{
    let here = folder_dir(library_dir_path, folder_id);
    let there = folder_dir(library_dir_path, other_folder_id);
    let path = joined(here, name);
    let start: int = library_dir_path.len() as int + 1;
    assert((here + seq!['/']).is_prefix_of(path)) by {
        assert(path.subrange(0, (here + seq!['/']).len() as int) =~= here + seq!['/']);
    }
    if within(there, path) {
        let prefix = if path == there {
            there
        } else {
            there + seq!['/']
        };
        assert(prefix.len() <= path.len());
        assert forall|i: int| 0 <= i < prefix.len() implies path[i] == prefix[i] by {
            if path != there {
                assert(path.subrange(0, prefix.len() as int) == prefix);
                assert(path.subrange(0, prefix.len() as int)[i] == path[i]);
            }
        }
        if folder_id.len() < other_folder_id.len() {
            let i: int = start + folder_id.len();
            assert(path[i] == '/');
            assert(prefix[i] == other_folder_id[folder_id.len() as int]);
        } else if other_folder_id.len() < folder_id.len() {
            let i: int = start + other_folder_id.len();
            assert(path[i] == folder_id[other_folder_id.len() as int]);
            assert(path != there);
            assert(prefix[i] == '/');
        } else {
            assert forall|k: int| 0 <= k < folder_id.len() implies folder_id[k]
                == other_folder_id[k] by {
                assert(path[start + k] == folder_id[k]);
                assert(prefix[start + k] == other_folder_id[k]);
            }
            assert(folder_id =~= other_folder_id);
        }
    }
}

} // verus!
