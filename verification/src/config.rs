//! Where things live on disk: the library root, the settings file, and the
//! directory or file of each entity.

use vstd::prelude::*;
use vstd::utf8::{encode_utf8, encode_utf8_decode_utf8};
use crate::error::StoreError;
use crate::file::{has_hidden_name, is_hidden};
use crate::outcome::Found;

verus! {

/// Name of the library's directory inside the application's data directory.
pub const LIBRARY_DIR: &'static str = "library";

/// Name of the settings file inside the application's data directory.
pub const SETTINGS_FILE: &'static str = "settings.dat";

/// Name of the file, inside a folder's directory, that holds the folder's
/// own metadata.
pub const FOLDER_INFO_FILE: &'static str = "folder_info.dat";

/// The reserved stem: no paper may carry it as its identifier, or its file
/// would be the folder's metadata file.
pub const FOLDER_INFO_STEM: &'static str = "folder_info";

/// What follows a paper's identifier in the name of its file.
pub const PAPER_EXTENSION: &'static str = ".dat";

/// Whether a character separates the segments of a path.
pub open spec fn is_separator(c: char) -> bool {
    c == '/' || c == '\\'
}

/// Whether an identifier can serve as one segment of a path and name a
/// library entity: it is not empty, holds no separator, and does not begin
/// with a dot (which leaves out `.` and `..` as well as hidden entries).
pub open spec fn valid_segment(id: Seq<char>) -> bool {
    &&& id.len() > 0
    &&& !is_hidden(id)
    &&& forall|i: int| 0 <= i < id.len() ==> !is_separator(#[trigger] id[i])
}

/// Tells whether `id` holds a path separator.
fn has_separator(id: &str) -> (found: bool)
    ensures
        found == exists|i: int| 0 <= i < id@.len() && is_separator(#[trigger] id@[i]),
{
    let mut found = false;
    for c in it: id.chars()
        invariant
            it.seq() == id@,
            found == exists|i: int| 0 <= i < it.index() && is_separator(#[trigger] id@[i]),
    {
        if c == '/' || c == '\\' {
            found = true;
        }
    }
    found
}

/// Tells whether `id` can name a library entity.
pub fn is_valid_segment(id: &str) -> (valid: bool)
    ensures
        valid == valid_segment(id@),
{
    !id.is_empty() && !has_hidden_name(id) && !has_separator(id)
}

/// `directory`, a slash, then `name`.
pub open spec fn joined(directory: Seq<char>, name: Seq<char>) -> Seq<char> {
    directory + seq!['/'] + name
}

/// Path of the library root inside the application's data directory.
pub open spec fn library_dir(app_data_dir: Seq<char>) -> Seq<char> {
    joined(app_data_dir, LIBRARY_DIR@)
}

/// Path of the settings file inside the application's data directory.
pub open spec fn settings_file(app_data_dir: Seq<char>) -> Seq<char> {
    joined(app_data_dir, SETTINGS_FILE@)
}

/// Path of a folder's directory.
pub open spec fn folder_dir(library_dir_path: Seq<char>, folder_id: Seq<char>) -> Seq<char> {
    joined(library_dir_path, folder_id)
}

/// Path of the file that holds a folder's metadata.
pub open spec fn folder_info_file(library_dir_path: Seq<char>, folder_id: Seq<char>) -> Seq<char> {
    joined(folder_dir(library_dir_path, folder_id), FOLDER_INFO_FILE@)
}

/// Name of a paper's file inside its folder's directory.
pub open spec fn paper_file_name(paper_id: Seq<char>) -> Seq<char> {
    paper_id + PAPER_EXTENSION@
}

/// Path of the file that holds a paper.
pub open spec fn paper_file(
    library_dir_path: Seq<char>,
    folder_id: Seq<char>,
    paper_id: Seq<char>,
) -> Seq<char> {
    joined(folder_dir(library_dir_path, folder_id), paper_file_name(paper_id))
}

/// Whether an identifier can name a paper: it is a valid segment and is not
/// the reserved stem.
pub open spec fn valid_paper_id(paper_id: Seq<char>) -> bool {
    valid_segment(paper_id) && paper_id != FOLDER_INFO_STEM@
}

/// A path inside a directory determines the name it was joined from.
pub proof fn lemma_joined_names_equal(directory: Seq<char>, a: Seq<char>, b: Seq<char>)
    requires
        joined(directory, a) == joined(directory, b),
    ensures
        a == b,
{
    let prefix = directory + seq!['/'];
    assert(a =~= joined(directory, a).subrange(prefix.len() as int, joined(directory, a).len() as int));
    assert(b =~= joined(directory, b).subrange(prefix.len() as int, joined(directory, b).len() as int));
}

/// Two segments that are followed by a slash and agree from the start are
/// the same segment, and so is what follows them.
pub proof fn lemma_joined_segments_equal(a: Seq<char>, x: Seq<char>, b: Seq<char>, y: Seq<char>)
    requires
        valid_segment(a),
        valid_segment(b),
        joined(a, x) == joined(b, y),
    ensures
        a == b,
        x == y,
{
    let left = joined(a, x);
    let right = joined(b, y);
    if a.len() < b.len() {
        assert(left[a.len() as int] == '/');
        assert(right[a.len() as int] == b[a.len() as int]);
        assert(false);
    }
    if b.len() < a.len() {
        assert(right[b.len() as int] == '/');
        assert(left[b.len() as int] == a[b.len() as int]);
        assert(false);
    }
    assert(a =~= left.subrange(0, a.len() as int));
    assert(b =~= right.subrange(0, b.len() as int));
    lemma_joined_names_equal(a, x, y);
}

/// Folders with different identifiers have different directories.
pub proof fn lemma_folder_dirs_distinct(library_dir_path: Seq<char>, a: Seq<char>, b: Seq<char>)
    requires
        a != b,
    ensures
        folder_dir(library_dir_path, a) != folder_dir(library_dir_path, b),
{
    if folder_dir(library_dir_path, a) == folder_dir(library_dir_path, b) {
        lemma_joined_names_equal(library_dir_path, a, b);
    }
}

/// Every entity has a file of its own: two papers share a file only if they
/// are the same paper of the same folder.
pub proof fn lemma_paper_files_distinct(
    library_dir_path: Seq<char>,
    folder_a: Seq<char>,
    paper_a: Seq<char>,
    folder_b: Seq<char>,
    paper_b: Seq<char>,
)
    requires
        valid_segment(folder_a),
        valid_segment(folder_b),
        paper_file(library_dir_path, folder_a, paper_a) == paper_file(
            library_dir_path,
            folder_b,
            paper_b,
        ),
    ensures
        folder_a == folder_b,
        paper_a == paper_b,
{
    let name_a = paper_file_name(paper_a);
    let name_b = paper_file_name(paper_b);
    assert(paper_file(library_dir_path, folder_a, paper_a) =~= joined(
        library_dir_path,
        joined(folder_a, name_a),
    ));
    assert(paper_file(library_dir_path, folder_b, paper_b) =~= joined(
        library_dir_path,
        joined(folder_b, name_b),
    ));
    lemma_joined_names_equal(
        library_dir_path,
        joined(folder_a, name_a),
        joined(folder_b, name_b),
    );
    lemma_joined_segments_equal(folder_a, name_a, folder_b, name_b);
    assert(paper_a =~= name_a.subrange(0, name_a.len() - PAPER_EXTENSION@.len()));
    assert(paper_b =~= name_b.subrange(0, name_b.len() - PAPER_EXTENSION@.len()));
}

/// The file of a paper is never the metadata file of a folder: the reserved
/// stem is no paper identifier.
pub proof fn lemma_paper_file_is_not_folder_info(
    library_dir_path: Seq<char>,
    folder_a: Seq<char>,
    paper_a: Seq<char>,
    folder_b: Seq<char>,
)
    requires
        valid_segment(folder_a),
        valid_segment(folder_b),
        valid_paper_id(paper_a),
    ensures
        paper_file(library_dir_path, folder_a, paper_a) != folder_info_file(
            library_dir_path,
            folder_b,
        ),
        paper_file_name(paper_a) != FOLDER_INFO_FILE@,
{
    reveal_strlit("folder_info.dat");
    reveal_strlit("folder_info");
    reveal_strlit(".dat");
    let name = paper_file_name(paper_a);
    if name == FOLDER_INFO_FILE@ {
        assert(paper_a.len() == 11);
        assert forall|i: int| 0 <= i < 11 implies paper_a[i] == FOLDER_INFO_STEM@[i] by {
            assert(paper_a[i] == name[i]);
        }
        assert(paper_a =~= FOLDER_INFO_STEM@);
    }
    if paper_file(library_dir_path, folder_a, paper_a) == folder_info_file(
        library_dir_path,
        folder_b,
    ) {
        assert(paper_file(library_dir_path, folder_a, paper_a) =~= joined(
            library_dir_path,
            joined(folder_a, name),
        ));
        assert(folder_info_file(library_dir_path, folder_b) =~= joined(
            library_dir_path,
            joined(folder_b, FOLDER_INFO_FILE@),
        ));
        lemma_joined_names_equal(
            library_dir_path,
            joined(folder_a, name),
            joined(folder_b, FOLDER_INFO_FILE@),
        );
        lemma_joined_segments_equal(folder_a, name, folder_b, FOLDER_INFO_FILE@);
    }
}

/// What a save writes, a load finds: the file name of a paper and the
/// directory name of a folder are visible entries, and the paper's file
/// name is not taken for the metadata file.
pub proof fn lemma_entity_names_are_visible(folder_id: Seq<char>, paper_id: Seq<char>)
    requires
        valid_segment(folder_id),
        valid_paper_id(paper_id),
    ensures
        !is_hidden(folder_id),
        !is_hidden(paper_file_name(paper_id)),
        paper_file_name(paper_id) != FOLDER_INFO_FILE@,
{
    lemma_paper_file_is_not_folder_info(seq![], folder_id, paper_id, folder_id);
    assert(paper_file_name(paper_id)[0] == paper_id[0]);
}

/// Tells whether two strings hold the same characters.
pub fn same_text(a: &str, b: &str) -> (same: bool)
    ensures
        same == (a@ == b@),
{
    let x = a.as_bytes();
    let y = b.as_bytes();
    proof {
        encode_utf8_decode_utf8(a@);
        encode_utf8_decode_utf8(b@);
    }
    if x.len() != y.len() {
        return false;
    }
    let mut i: usize = 0;
    while i < x.len()
        invariant
            i <= x.len(),
            x.len() == y.len(),
            x@ == encode_utf8(a@),
            y@ == encode_utf8(b@),
            forall|j: int| 0 <= j < i ==> x@[j] == y@[j],
        decreases x.len() - i,
    {
        if x[i] != y[i] {
            return false;
        }
        i += 1;
    }
    assert(x@ =~= y@);
    true
}

/// Tells whether `paper_id` can name a paper.
pub fn is_valid_paper_id(paper_id: &str) -> (valid: bool)
    ensures
        valid == valid_paper_id(paper_id@),
{
    is_valid_segment(paper_id) && !same_text(paper_id, FOLDER_INFO_STEM)
}

/// Puts a slash between a directory and a name.
pub fn join(directory: &str, name: &str) -> (path: String)
    ensures
        path@ == joined(directory@, name@),
{
    let mut path = String::from_str(directory);
    path.append("/");
    path.append(name);
    proof {
        reveal_strlit("/");
        assert("/"@ =~= seq!['/']);
    }
    path
}

/// The library root that belongs to an application data directory.
pub fn get_library_dir_path(app_data_dir: &str) -> (path: String)
    ensures
        path@ == library_dir(app_data_dir@),
{
    join(app_data_dir, LIBRARY_DIR)
}

/// Start-up: given what stands at the library root, the directory to create,
/// if any. The root is created only where nothing stands.
pub fn init(app_data_dir: &str, found: Found) -> (create: Option<String>)
    ensures
        match create {
            Some(path) => found == Found::Nothing && path@ == library_dir(app_data_dir@),
            None => found != Found::Nothing,
        },
{
    match found {
        Found::Nothing => Some(get_library_dir_path(app_data_dir)),
        _ => None,
    }
}

/// The settings file that belongs to an application data directory.
pub fn get_settings_filepath(app_data_dir: &str) -> (path: String)
    ensures
        path@ == settings_file(app_data_dir@),
{
    join(app_data_dir, SETTINGS_FILE)
}

/// The directory of a folder, if its identifier can name one.
pub fn folder_path(library_dir_path: &str, folder_id: &str) -> (r: Result<String, StoreError>)
    ensures
        match r {
            Ok(path) => valid_segment(folder_id@) && path@ == folder_dir(
                library_dir_path@,
                folder_id@,
            ),
            Err(e) => e == StoreError::Validation && !valid_segment(folder_id@),
        },
{
    if is_valid_segment(folder_id) {
        Ok(join(library_dir_path, folder_id))
    } else {
        Err(StoreError::Validation)
    }
}

/// The metadata file of a folder, if its identifier can name one.
pub fn folder_info_path(library_dir_path: &str, folder_id: &str) -> (r: Result<String, StoreError>)
    ensures
        match r {
            Ok(path) => valid_segment(folder_id@) && path@ == folder_info_file(
                library_dir_path@,
                folder_id@,
            ),
            Err(e) => e == StoreError::Validation && !valid_segment(folder_id@),
        },
{
    match folder_path(library_dir_path, folder_id) {
        Ok(directory) => Ok(join(directory.as_str(), FOLDER_INFO_FILE)),
        Err(e) => Err(e),
    }
}

/// The file of a paper, if both identifiers can name their entities.
pub fn paper_path(library_dir_path: &str, folder_id: &str, paper_id: &str) -> (r: Result<
    String,
    StoreError,
>)
    ensures
        match r {
            Ok(path) => valid_segment(folder_id@) && valid_paper_id(paper_id@) && path@
                == paper_file(library_dir_path@, folder_id@, paper_id@),
            Err(e) => e == StoreError::Validation && !(valid_segment(folder_id@) && valid_paper_id(
                paper_id@,
            )),
        },
{
    if !is_valid_paper_id(paper_id) {
        return Err(StoreError::Validation);
    }
    match folder_path(library_dir_path, folder_id) {
        Ok(directory) => {
            let mut name = String::from_str(paper_id);
            name.append(PAPER_EXTENSION);
            Ok(join(directory.as_str(), name.as_str()))
        },
        Err(e) => Err(e),
    }
}

} // verus!
