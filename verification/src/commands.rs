//! The operations of the library: loading folders and papers, saving a
//! library, deleting entities, and the settings file.
//!
//! Each operation is a step between two file-system calls. The caller lists
//! a directory, reads, writes or removes; the functions here say which paths
//! to touch and what the outcomes amount to.

use vstd::prelude::*;
use serde_json::Value;
use crate::config::{
    folder_dir, folder_info_file, folder_path, get_settings_filepath, join, joined,
    lemma_joined_names_equal, paper_file, paper_path, same_text, settings_file, valid_paper_id,
    valid_segment, FOLDER_INFO_FILE,
};
use crate::document::{
    array_field, array_member, decode_document, document_text, json_parsed, json_text,
    parse_document, stored_document, string_field, string_member,
};
use crate::error::StoreError;
use crate::file::{
    compress, decoded_text, is_hidden, lemma_visible_names, names_of, read_directory_contents,
    visible_names,
};
use crate::outcome::{
    files_of, FileRead, FileReadView, FileWrite, FileWriteView, Found, Listing, LoadedFile,
    LoadedFileView, Removal,
};

verus! {

/// An entity that could not be loaded.
#[derive(Debug)]
pub struct Fault {
    pub path: String,
    pub error: StoreError,
}

/// The outcome of loading a set of entity files.
#[derive(Debug)]
pub struct LoadReport {
    /// The documents that could be decoded, in the order of their files.
    pub documents: Vec<Value>,
    /// The files that could not, in the same order.
    pub failures: Vec<Fault>,
}

/// Mathematical value of a [`Fault`].
pub struct FaultView {
    pub path: Seq<char>,
    pub error: StoreError,
}

impl View for Fault {
    type V = FaultView;

    open spec fn view(&self) -> FaultView {
        FaultView { path: self.path@, error: self.error }
    }
}

/// The views of a sequence of failures.
pub open spec fn failures_of(failures: Seq<Fault>) -> Seq<FaultView> {
    failures.map_values(|failure: Fault| failure@)
}

/// Each name, placed inside `directory`.
pub open spec fn paths_in(directory: Seq<char>, names: Seq<Seq<char>>) -> Seq<Seq<char>> {
    names.map_values(|name: Seq<char>| joined(directory, name))
}

/// The metadata file of each folder whose directory is among `names`.
pub open spec fn folder_info_files(library_dir_path: Seq<char>, names: Seq<Seq<char>>) -> Seq<
    Seq<char>,
> {
    visible_names(names).map_values(
        |name: Seq<char>| joined(joined(library_dir_path, name), FOLDER_INFO_FILE@),
    )
}

/// The entries of a folder's directory that hold papers: those that are
/// visible and are not the folder's metadata file.
pub open spec fn paper_names(names: Seq<Seq<char>>) -> Seq<Seq<char>> {
    visible_names(names).filter(|name: Seq<char>| name != FOLDER_INFO_FILE@)
}

/// A name is among the paper names exactly if it is an entry, is not
/// hidden, and is not the name of the metadata file.
pub proof fn lemma_paper_names(names: Seq<Seq<char>>, name: Seq<char>)
    ensures
        paper_names(names).contains(name) <==> names.contains(name) && !is_hidden(name) && name
            != FOLDER_INFO_FILE@,
{
    let is_paper = |name: Seq<char>| name != FOLDER_INFO_FILE@;
    let visible = visible_names(names);
    lemma_visible_names(names, name);
    if paper_names(names).contains(name) {
        visible.lemma_filter_contains_rev(is_paper, name);
        let i = choose|i: int|
            0 <= i < visible.filter(is_paper).len() && visible.filter(is_paper)[i] == name;
        visible.lemma_filter_pred(is_paper, i);
    }
    if visible.contains(name) && name != FOLDER_INFO_FILE@ {
        let i = choose|i: int| 0 <= i < visible.len() && visible[i] == name;
        visible.lemma_filter_contains(is_paper, i);
    }
}

/// A hidden entry of the library root is never taken for a folder: no
/// metadata file is asked for on its account.
pub proof fn lemma_hidden_entries_are_no_folders(
    library_dir_path: Seq<char>,
    names: Seq<Seq<char>>,
    hidden: Seq<char>,
)
    requires
        is_hidden(hidden),
    ensures
        !folder_info_files(library_dir_path, names).contains(
            folder_info_file(library_dir_path, hidden),
        ),
{
    let files = folder_info_files(library_dir_path, names);
    let target = folder_info_file(library_dir_path, hidden);
    if files.contains(target) {
        let i = choose|i: int| 0 <= i < files.len() && files[i] == target;
        let name = visible_names(names)[i];
        let a = joined(library_dir_path, name);
        let b = joined(library_dir_path, hidden);
        assert(files[i] == joined(a, FOLDER_INFO_FILE@));
        assert(a =~= joined(a, FOLDER_INFO_FILE@).subrange(0, a.len() as int));
        assert(b =~= joined(b, FOLDER_INFO_FILE@).subrange(0, b.len() as int));
        lemma_joined_names_equal(library_dir_path, name, hidden);
        assert(visible_names(names).contains(name));
        lemma_visible_names(names, name);
    }
}

/// What one file contributes to a load: nothing if it is absent, else the
/// document it holds or the reason it holds none.
pub open spec fn read_outcome(read: FileReadView) -> Option<Result<Value, StoreError>> {
    match read {
        FileReadView::Missing => None,
        FileReadView::Failed => Some(Err(StoreError::Io)),
        FileReadView::Contents(bytes) => match stored_document(bytes) {
            Some(document) => Some(Ok(document)),
            None => Some(Err(StoreError::CorruptData)),
        },
    }
}

/// The documents that the files hold, in order; files that are absent or
/// cannot be decoded contribute none.
pub open spec fn loaded_documents(files: Seq<LoadedFileView>) -> Seq<Value>
    decreases files.len(),
{
    if files.len() == 0 {
        seq![]
    } else {
        let earlier = loaded_documents(files.drop_last());
        match read_outcome(files.last().read) {
            Some(Ok(document)) => earlier.push(document),
            _ => earlier,
        }
    }
}

/// The files that are present and hold no document, each with the reason,
/// in order.
pub open spec fn load_failures(files: Seq<LoadedFileView>) -> Seq<FaultView>
    decreases files.len(),
{
    if files.len() == 0 {
        seq![]
    } else {
        let earlier = load_failures(files.drop_last());
        match read_outcome(files.last().read) {
            Some(Err(error)) => earlier.push(FaultView { path: files.last().path, error }),
            _ => earlier,
        }
    }
}

/// A file that holds a document contributes it to the load, whatever the
/// other files hold.
pub proof fn lemma_load_isolation(files: Seq<LoadedFileView>, i: int)
    requires
        0 <= i < files.len(),
        read_outcome(files[i].read) matches Some(Ok(_)),
    ensures
        loaded_documents(files).contains(read_outcome(files[i].read)->0->Ok_0),
    decreases files.len(),
{
    let document = read_outcome(files[i].read)->0->Ok_0;
    let earlier = loaded_documents(files.drop_last());
    if i == files.len() - 1 {
        assert(loaded_documents(files) == earlier.push(document));
        assert(earlier.push(document)[earlier.len() as int] == document);
    } else {
        lemma_load_isolation(files.drop_last(), i);
        let k = choose|k: int| 0 <= k < earlier.len() && earlier[k] == document;
        assert(loaded_documents(files)[k] == document);
    }
}

/// Interprets what reading the file of one entity gave: the document it
/// holds, `NotFound` if the file is absent, `Io` if it could not be read,
/// `CorruptData` if its bytes hold no document.
pub fn read_document(read: &FileRead) -> (r: Result<Value, StoreError>)
    ensures
        r == match read_outcome(read@) {
            None => Err::<Value, StoreError>(StoreError::NotFound),
            Some(outcome) => outcome,
        },
{
    match read {
        FileRead::Missing => Err(StoreError::NotFound),
        FileRead::Failed => Err(StoreError::Io),
        FileRead::Contents(bytes) => decode_document(bytes.as_slice()),
    }
}

/// Places each name inside `directory`.
fn place_in(directory: &str, names: &Vec<String>) -> (paths: Vec<String>)
    ensures
        names_of(paths@) == paths_in(directory@, names_of(names@)),
{
    let mut paths: Vec<String> = Vec::new();
    let mut i: usize = 0;
    while i < names.len()
        invariant
            i <= names.len(),
            paths@.len() == i,
            forall|k: int| 0 <= k < i ==> (#[trigger] paths@[k])@ == joined(directory@, names@[k]@),
        decreases names.len() - i,
    {
        paths.push(join(directory, names[i].as_str()));
        i += 1;
    }
    assert(names_of(paths@) =~= paths_in(directory@, names_of(names@)));
    paths
}

/// Drops the metadata file from the visible entries of a folder's directory.
fn paper_entries(entries: &[String]) -> (papers: Vec<String>)
    ensures
        names_of(papers@) == paper_names(names_of(entries@)),
{
    let visible = read_directory_contents(entries);
    let ghost is_paper = |name: Seq<char>| name != FOLDER_INFO_FILE@;
    let mut papers: Vec<String> = Vec::new();
    let mut i: usize = 0;
    proof {
        reveal(Seq::filter);
        assert(visible@.take(0) =~= Seq::<String>::empty());
        assert(names_of(papers@) =~= names_of(visible@.take(0)).filter(is_paper));
    }
    while i < visible.len()
        invariant
            i <= visible.len(),
            is_paper == |name: Seq<char>| name != FOLDER_INFO_FILE@,
            names_of(papers@) == names_of(visible@.take(i as int)).filter(is_paper),
        decreases visible.len() - i,
    {
        let ghost before = papers@;
        proof {
            let seen = names_of(visible@.take(i as int));
            assert(visible@.take(i + 1) =~= visible@.take(i as int).push(visible@[i as int]));
            assert(names_of(visible@.take(i + 1)) =~= seen.push(visible@[i as int]@));
            Seq::lemma_filter_push(seen, visible@[i as int]@, is_paper);
        }
        if !same_text(visible[i].as_str(), FOLDER_INFO_FILE) {
            papers.push(visible[i].clone());
            proof {
                assert(names_of(papers@) =~= names_of(before).push(visible@[i as int]@));
            }
        }
        i += 1;
    }
    proof {
        assert(visible@.take(i as int) =~= visible@);
    }
    papers
}

/// First step of loading the folders: given what listing the library root
/// gave, the metadata files to read, one for each visible entry.
///
/// A root that does not exist is an empty library, not an error.
pub fn load_library_folders(library_dir_path: &str, listing: &Listing) -> (r: Result<
    Vec<String>,
    StoreError,
>)
    ensures
        match *listing {
            Listing::Missing => r is Ok && r->Ok_0@.len() == 0,
            Listing::Failed => r == Err::<Vec<String>, StoreError>(StoreError::Io),
            Listing::Entries(entries) => r is Ok && names_of(r->Ok_0@) == folder_info_files(
                library_dir_path@,
                names_of(entries@),
            ),
        },
{
    match listing {
        Listing::Missing => Ok(Vec::new()),
        Listing::Failed => Err(StoreError::Io),
        Listing::Entries(entries) => {
            let folders = read_directory_contents(entries.as_slice());
            let mut paths: Vec<String> = Vec::new();
            let mut i: usize = 0;
            while i < folders.len()
                invariant
                    i <= folders.len(),
                    paths@.len() == i,
                    forall|k: int|
                        0 <= k < i ==> (#[trigger] paths@[k])@ == joined(
                            joined(library_dir_path@, folders@[k]@),
                            FOLDER_INFO_FILE@,
                        ),
                decreases folders.len() - i,
            {
                let directory = join(library_dir_path, folders[i].as_str());
                paths.push(join(directory.as_str(), FOLDER_INFO_FILE));
                i += 1;
            }
            assert(names_of(paths@) =~= folder_info_files(library_dir_path@, names_of(entries@)));
            Ok(paths)
        },
    }
}

/// First step of loading the papers of one folder: given what listing the
/// folder's directory gave, the paper files to read. They all lie in that
/// directory.
///
/// A folder that does not exist has no papers to offer: `None`.
pub fn load_library_folder_papers(
    library_dir_path: &str,
    folder_id: &str,
    listing: &Listing,
) -> (r: Result<Option<Vec<String>>, StoreError>)
    ensures
        !valid_segment(folder_id@) ==> r == Err::<Option<Vec<String>>, StoreError>(
            StoreError::Validation,
        ),
        valid_segment(folder_id@) ==> match *listing {
            Listing::Missing => r == Ok::<Option<Vec<String>>, StoreError>(None),
            Listing::Failed => r == Err::<Option<Vec<String>>, StoreError>(StoreError::Io),
            Listing::Entries(entries) => r matches Ok(Some(paths)) && names_of(paths@) == paths_in(
                folder_dir(library_dir_path@, folder_id@),
                paper_names(names_of(entries@)),
            ),
        },
{
    let directory = match folder_path(library_dir_path, folder_id) {
        Ok(directory) => directory,
        Err(e) => { return Err(e); },
    };
    match listing {
        Listing::Missing => Ok(None),
        Listing::Failed => Err(StoreError::Io),
        Listing::Entries(entries) => {
            let papers = paper_entries(entries.as_slice());
            Ok(Some(place_in(directory.as_str(), &papers)))
        },
    }
}

/// Second step of a load: decodes the files that were read.
///
/// Each file stands alone: one that cannot be read or decoded is reported
/// and does not keep the others from loading; one that has vanished since
/// the directory was listed is passed over.
pub fn load_documents(files: &[LoadedFile]) -> (report: LoadReport)
    ensures
        report.documents@ == loaded_documents(files_of(files@)),
        failures_of(report.failures@) == load_failures(files_of(files@)),
        forall|i: int|
            0 <= i < files@.len() && (#[trigger] read_outcome(files@[i]@.read) matches Some(Ok(_)))
                ==> report.documents@.contains(read_outcome(files@[i]@.read)->0->Ok_0),
{
    let mut documents: Vec<Value> = Vec::new();
    let mut failures: Vec<Fault> = Vec::new();
    let mut i: usize = 0;
    proof {
        assert(files_of(files@.take(0)) =~= Seq::<LoadedFileView>::empty());
        assert(failures_of(failures@) =~= Seq::<FaultView>::empty());
    }
    while i < files.len()
        invariant
            i <= files.len(),
            documents@ == loaded_documents(files_of(files@.take(i as int))),
            failures_of(failures@) == load_failures(files_of(files@.take(i as int))),
        decreases files.len() - i,
    {
        let ghost before = failures@;
        proof {
            let next = files_of(files@.take(i + 1));
            assert(next.drop_last() =~= files_of(files@.take(i as int)));
            assert(next.last() == files@[i as int]@);
        }
        match read_document(&files[i].read) {
            Ok(document) => {
                documents.push(document);
            },
            Err(StoreError::NotFound) => {},
            Err(error) => {
                failures.push(Fault { path: files[i].path.clone(), error });
                proof {
                    assert(failures_of(failures@) =~= failures_of(before).push(
                        FaultView { path: files@[i as int]@.path, error },
                    ));
                }
            },
        }
        i += 1;
    }
    proof {
        assert(files@.take(i as int) =~= files@);
        assert forall|k: int|
            0 <= k < files@.len() && (#[trigger] read_outcome(files@[k]@.read) matches Some(
                Ok(_),
            )) implies documents@.contains(read_outcome(files@[k]@.read)->0->Ok_0) by {
            lemma_load_isolation(files_of(files@), k);
        }
    }
    LoadReport { documents, failures }
}

/// Interprets what reading the settings file gave: no settings if the file
/// does not exist, else the document it holds.
pub fn load_settings(read: &FileRead) -> (r: Result<Option<Value>, StoreError>)
    ensures
        match read_outcome(read@) {
            None => r == Ok::<Option<Value>, StoreError>(None),
            Some(Ok(document)) => r == Ok::<Option<Value>, StoreError>(Some(document)),
            Some(Err(error)) => r == Err::<Option<Value>, StoreError>(error),
        },
{
    match read_document(read) {
        Ok(document) => Ok(Some(document)),
        Err(StoreError::NotFound) => Ok(None),
        Err(error) => Err(error),
    }
}

/// Field of the library document that holds the folders.
pub const FOLDERS_FIELD: &'static str = "folders";

/// Field of the library document that holds the papers.
pub const PAPERS_FIELD: &'static str = "papers";

/// Field of a folder or a paper that holds its identifier.
pub const ID_FIELD: &'static str = "id";

/// Field of a paper that holds the identifier of its folder.
pub const FOLDER_ID_FIELD: &'static str = "folderId";

/// The two arrays of a library document.
#[derive(Clone, Copy, Debug, PartialEq, Eq, Structural)]
pub enum Section {
    Folders,
    Papers,
}

/// A document of the incoming library that fails validation and will not be
/// written.
#[derive(Clone, Copy, Debug, PartialEq, Eq, Structural)]
pub struct Rejected {
    /// The array it stands in.
    pub section: Section,
    /// Its position in that array.
    pub index: usize,
    /// Why it is left out.
    pub error: StoreError,
}

/// A file that a save is to hold: the text to store and where it goes. This
/// is what the encoder is handed.
#[derive(Debug)]
pub struct Target {
    pub directory: String,
    pub path: String,
    pub text: String,
}

/// Mathematical value of a [`Target`].
pub struct TargetView {
    pub directory: Seq<char>,
    pub path: Seq<char>,
    pub text: Seq<char>,
}

impl View for Target {
    type V = TargetView;

    open spec fn view(&self) -> TargetView {
        TargetView { directory: self.directory@, path: self.path@, text: self.text@ }
    }
}

/// What saving a library amounts to.
#[derive(Debug)]
pub struct SavePlan {
    /// One entry for each document that passed validation, the folders
    /// first, then the papers, each group in the order of the incoming
    /// document: the file to write, or the encoder's failure.
    pub writes: Vec<Result<FileWrite, Fault>>,
    /// The documents that failed validation, in the same order.
    pub rejected: Vec<Rejected>,
}

/// The view of the outcome of encoding one target.
pub open spec fn outcome_view(outcome: Result<FileWrite, Fault>) -> Result<
    FileWriteView,
    FaultView,
> {
    match outcome {
        Ok(write) => Ok(write@),
        Err(fault) => Err(fault@),
    }
}

/// The views of a sequence of such outcomes.
pub open spec fn outcomes_of(outcomes: Seq<Result<FileWrite, Fault>>) -> Seq<
    Result<FileWriteView, FaultView>,
> {
    outcomes.map_values(|outcome: Result<FileWrite, Fault>| outcome_view(outcome))
}

/// The target that stores `document` at `path` inside `directory`.
pub open spec fn document_target(directory: Seq<char>, path: Seq<char>, document: Value)
    -> TargetView {
    TargetView { directory, path, text: json_text(document) }
}

/// What a folder of the incoming library becomes: nothing if it carries no
/// string `id`, a rejection if that identifier cannot name a folder, else
/// the target that is its metadata file.
pub open spec fn folder_target(library_dir_path: Seq<char>, folder: Value) -> Option<
    Result<TargetView, StoreError>,
> {
    match string_member(folder, ID_FIELD@) {
        None => None,
        Some(id) => Some(
            if valid_segment(id) {
                Ok(
                    document_target(
                        folder_dir(library_dir_path, id),
                        folder_info_file(library_dir_path, id),
                        folder,
                    ),
                )
            } else {
                Err(StoreError::Validation)
            },
        ),
    }
}

/// What a paper of the incoming library becomes: a rejection if it lacks a
/// string `folderId` or `id`, or if one of them cannot name its entity, else
/// the target that is its file inside its folder's directory.
pub open spec fn paper_target(library_dir_path: Seq<char>, paper: Value) -> Result<
    TargetView,
    StoreError,
> {
    match (string_member(paper, FOLDER_ID_FIELD@), string_member(paper, ID_FIELD@)) {
        (Some(folder_id), Some(id)) => if valid_segment(folder_id) && valid_paper_id(id) {
            Ok(
                document_target(
                    folder_dir(library_dir_path, folder_id),
                    paper_file(library_dir_path, folder_id, id),
                    paper,
                ),
            )
        } else {
            Err(StoreError::Validation)
        },
        _ => Err(StoreError::Validation),
    }
}

/// What a document of the given section becomes.
pub open spec fn entity_target(library_dir_path: Seq<char>, section: Section, document: Value)
    -> Option<Result<TargetView, StoreError>> {
    match section {
        Section::Folders => folder_target(library_dir_path, document),
        Section::Papers => Some(paper_target(library_dir_path, document)),
    }
}

/// The targets that the documents of one section become, in order.
pub open spec fn planned_targets(
    library_dir_path: Seq<char>,
    section: Section,
    documents: Seq<Value>,
) -> Seq<TargetView>
    decreases documents.len(),
{
    if documents.len() == 0 {
        seq![]
    } else {
        let earlier = planned_targets(library_dir_path, section, documents.drop_last());
        match entity_target(library_dir_path, section, documents.last()) {
            Some(Ok(target)) => earlier.push(target),
            _ => earlier,
        }
    }
}

/// The documents of one section that fail validation, in order.
pub open spec fn planned_rejections(
    library_dir_path: Seq<char>,
    section: Section,
    documents: Seq<Value>,
) -> Seq<Rejected>
    decreases documents.len(),
{
    if documents.len() == 0 {
        seq![]
    } else {
        let earlier = planned_rejections(library_dir_path, section, documents.drop_last());
        match entity_target(library_dir_path, section, documents.last()) {
            Some(Err(error)) => earlier.push(
                Rejected { section, index: (documents.len() - 1) as usize, error },
            ),
            _ => earlier,
        }
    }
}

/// The documents that a library document holds in one of its two arrays;
/// none if it has no such array.
pub open spec fn section_documents(tree: Value, section: Section) -> Seq<Value> {
    let field = match section {
        Section::Folders => FOLDERS_FIELD@,
        Section::Papers => PAPERS_FIELD@,
    };
    match array_member(tree, field) {
        Some(documents) => documents,
        None => seq![],
    }
}

/// The targets that saving `tree` amounts to: folders first, then papers.
pub open spec fn library_targets(library_dir_path: Seq<char>, tree: Value) -> Seq<TargetView> {
    planned_targets(
        library_dir_path,
        Section::Folders,
        section_documents(tree, Section::Folders),
    ) + planned_targets(library_dir_path, Section::Papers, section_documents(tree, Section::Papers))
}

/// The documents of `tree` that saving it leaves out.
pub open spec fn library_rejections(library_dir_path: Seq<char>, tree: Value) -> Seq<Rejected> {
    planned_rejections(
        library_dir_path,
        Section::Folders,
        section_documents(tree, Section::Folders),
    ) + planned_rejections(
        library_dir_path,
        Section::Papers,
        section_documents(tree, Section::Papers),
    )
}

/// What holds of the outcome of encoding a target, whatever the encoder
/// did: a write goes to the target's path inside the target's directory and
/// its contents decode to the target's text; a failure names the target's
/// path and is an I/O failure.
pub open spec fn encodes(outcome: Result<FileWriteView, FaultView>, target: TargetView) -> bool {
    match outcome {
        Ok(write) => {
            &&& write.directory == target.directory
            &&& write.path == target.path
            &&& decoded_text(write.contents) == Some(target.text)
        },
        Err(fault) => fault.path == target.path && fault.error == StoreError::Io,
    }
}

/// Whether the outcomes carry out the targets: there is one for each
/// target, in order, and each encodes its target.
pub open spec fn carries_out(
    outcomes: Seq<Result<FileWriteView, FaultView>>,
    targets: Seq<TargetView>,
) -> bool {
    &&& outcomes.len() == targets.len()
    &&& forall|k: int| 0 <= k < targets.len() ==> encodes(#[trigger] outcomes[k], targets[k])
}

/// Whether a file at `path` inside `directory` is the metadata file of the
/// folder `folder_id`.
pub open spec fn stores_folder(
    library_dir_path: Seq<char>,
    folder_id: Seq<char>,
    directory: Seq<char>,
    path: Seq<char>,
) -> bool {
    &&& valid_segment(folder_id)
    &&& directory == folder_dir(library_dir_path, folder_id)
    &&& path == folder_info_file(library_dir_path, folder_id)
}

/// Whether a file at `path` inside `directory` is the file of the paper
/// `paper_id` of the folder `folder_id`.
pub open spec fn stores_paper(
    library_dir_path: Seq<char>,
    folder_id: Seq<char>,
    paper_id: Seq<char>,
    directory: Seq<char>,
    path: Seq<char>,
) -> bool {
    &&& valid_segment(folder_id)
    &&& valid_paper_id(paper_id)
    &&& directory == folder_dir(library_dir_path, folder_id)
    &&& path == paper_file(library_dir_path, folder_id, paper_id)
}

/// Whether a target is the file of some document of `documents`: it lies
/// where an entity of the library lies, and its text is the text of that
/// document.
pub open spec fn is_entity_target(
    library_dir_path: Seq<char>,
    documents: Seq<Value>,
    target: TargetView,
) -> bool {
    exists|j: int|
        0 <= j < documents.len() && target.text == json_text(#[trigger] documents[j]) && ({
            ||| exists|folder_id: Seq<char>|
                stores_folder(library_dir_path, folder_id, target.directory, target.path)
            ||| exists|folder_id: Seq<char>, paper_id: Seq<char>|
                stores_paper(library_dir_path, folder_id, paper_id, target.directory, target.path)
        })
}

/// Every target planned for a section is the file of one of its documents:
/// it lies inside the directory of a folder with a valid identifier, which
/// lies directly inside the library root, and holds that document's text.
pub proof fn lemma_planned_targets_are_entity_targets(
    library_dir_path: Seq<char>,
    section: Section,
    documents: Seq<Value>,
    i: int,
)
    requires
        0 <= i < planned_targets(library_dir_path, section, documents).len(),
    ensures
        is_entity_target(
            library_dir_path,
            documents,
            planned_targets(library_dir_path, section, documents)[i],
        ),
    decreases documents.len(),
{
    let earlier = planned_targets(library_dir_path, section, documents.drop_last());
    let target = planned_targets(library_dir_path, section, documents)[i];
    if i < earlier.len() {
        lemma_planned_targets_are_entity_targets(
            library_dir_path,
            section,
            documents.drop_last(),
            i,
        );
        let j = choose|j: int|
            0 <= j < documents.drop_last().len() && target.text == json_text(
                #[trigger] documents.drop_last()[j],
            );
        assert(documents[j] == documents.drop_last()[j]);
    } else {
        let document = documents.last();
        assert(documents[documents.len() - 1] == document);
        match section {
            Section::Folders => {
                let id = string_member(document, ID_FIELD@)->0;
                assert(stores_folder(library_dir_path, id, target.directory, target.path));
            },
            Section::Papers => {
                let folder_id = string_member(document, FOLDER_ID_FIELD@)->0;
                let id = string_member(document, ID_FIELD@)->0;
                assert(stores_paper(library_dir_path, folder_id, id, target.directory, target.path));
            },
        }
    }
}

/// Every target of a save is the file of one of the documents of the
/// incoming library.
pub proof fn lemma_library_targets_are_entity_targets(
    library_dir_path: Seq<char>,
    tree: Value,
    i: int,
)
    requires
        0 <= i < library_targets(library_dir_path, tree).len(),
    ensures
        is_entity_target(
            library_dir_path,
            section_documents(tree, Section::Folders) + section_documents(tree, Section::Papers),
            library_targets(library_dir_path, tree)[i],
        ),
{
    let folders = section_documents(tree, Section::Folders);
    let papers = section_documents(tree, Section::Papers);
    let first = planned_targets(library_dir_path, Section::Folders, folders);
    let target = library_targets(library_dir_path, tree)[i];
    if i < first.len() {
        lemma_planned_targets_are_entity_targets(library_dir_path, Section::Folders, folders, i);
        let j = choose|j: int|
            0 <= j < folders.len() && target.text == json_text(#[trigger] folders[j]);
        assert((folders + papers)[j] == folders[j]);
    } else {
        lemma_planned_targets_are_entity_targets(
            library_dir_path,
            Section::Papers,
            papers,
            i - first.len(),
        );
        let j = choose|j: int|
            0 <= j < papers.len() && target.text == json_text(#[trigger] papers[j]);
        assert((folders + papers)[folders.len() + j] == papers[j]);
    }
}

/// Two writes that encode the same target hold the same text and so the
/// same document, though their bytes may differ: saving a library twice
/// leaves every load as the first save left it.
pub proof fn lemma_same_target_same_document(
    first: FileWriteView,
    second: FileWriteView,
    target: TargetView,
)
    requires
        encodes(Ok(first), target),
        encodes(Ok(second), target),
    ensures
        first.directory == second.directory,
        first.path == second.path,
        decoded_text(first.contents) == decoded_text(second.contents),
        stored_document(first.contents) == stored_document(second.contents),
        read_outcome(FileReadView::Contents(first.contents)) == read_outcome(
            FileReadView::Contents(second.contents),
        ),
{
}

/// Plans one folder of the incoming library: where its metadata goes and
/// what text is stored there.
pub fn plan_folder(library_dir_path: &str, folder: &Value) -> (r: Option<
    Result<Target, StoreError>,
>)
    ensures
        match r {
            None => folder_target(library_dir_path@, *folder) is None,
            Some(Ok(target)) => folder_target(library_dir_path@, *folder) == Some(
                Ok::<TargetView, StoreError>(target@),
            ),
            Some(Err(e)) => folder_target(library_dir_path@, *folder) == Some(
                Err::<TargetView, StoreError>(e),
            ),
        },
{
    let id = match string_field(folder, ID_FIELD) {
        Some(id) => id,
        None => { return None; },
    };
    let directory = match folder_path(library_dir_path, id) {
        Ok(directory) => directory,
        Err(e) => { return Some(Err(e)); },
    };
    let path = join(directory.as_str(), FOLDER_INFO_FILE);
    Some(Ok(Target { directory, path, text: document_text(folder) }))
}

/// Plans one paper of the incoming library: where its file goes and what
/// text is stored there.
pub fn plan_paper(library_dir_path: &str, paper: &Value) -> (r: Result<Target, StoreError>)
    ensures
        match r {
            Ok(target) => paper_target(library_dir_path@, *paper) == Ok::<TargetView, StoreError>(
                target@,
            ),
            Err(e) => paper_target(library_dir_path@, *paper) == Err::<TargetView, StoreError>(e),
        },
{
    let folder_id = match string_field(paper, FOLDER_ID_FIELD) {
        Some(folder_id) => folder_id,
        None => { return Err(StoreError::Validation); },
    };
    let id = match string_field(paper, ID_FIELD) {
        Some(id) => id,
        None => { return Err(StoreError::Validation); },
    };
    let path = match paper_path(library_dir_path, folder_id, id) {
        Ok(path) => path,
        Err(e) => { return Err(e); },
    };
    let directory = join(library_dir_path, folder_id);
    Ok(Target { directory, path, text: document_text(paper) })
}

/// Puts a target and the outcome of compressing its text together: the
/// file to write if there are bytes, else the failure under the target's
/// path.
pub fn planned_write(target: Target, encoded: Result<Vec<u8>, StoreError>) -> (r: Result<
    FileWrite,
    Fault,
>)
    ensures
        match encoded {
            Ok(contents) => r matches Ok(write) && write@ == (FileWriteView {
                directory: target@.directory,
                path: target@.path,
                contents: contents@,
            }),
            Err(error) => r matches Err(fault) && fault@ == (FaultView {
                path: target@.path,
                error,
            }),
        },
{
    match encoded {
        Ok(contents) => Ok(FileWrite { directory: target.directory, path: target.path, contents }),
        Err(error) => Err(Fault { path: target.path, error }),
    }
}

/// Encodes a target: compresses its text and names the file to write.
///
/// Whether the encoder succeeds is its own affair. Whatever comes back
/// belongs to the target: a write to its path whose contents decode to its
/// text, or an I/O failure under its path.
pub fn encode_target(target: Target) -> (r: Result<FileWrite, Fault>)
    ensures
        encodes(outcome_view(r), target@),
{
    let encoded = compress(target.text.as_str());
    planned_write(target, encoded)
}

/// Plans and encodes the documents of one section.
fn plan_section(library_dir_path: &str, section: Section, documents: &Vec<Value>) -> (r: (
    Vec<Result<FileWrite, Fault>>,
    Vec<Rejected>,
))
    ensures
        carries_out(outcomes_of(r.0@), planned_targets(library_dir_path@, section, documents@)),
        r.1@ == planned_rejections(library_dir_path@, section, documents@),
{
    let mut writes: Vec<Result<FileWrite, Fault>> = Vec::new();
    let mut rejected: Vec<Rejected> = Vec::new();
    let mut i: usize = 0;
    proof {
        assert(documents@.take(0) =~= Seq::<Value>::empty());
    }
    while i < documents.len()
        invariant
            i <= documents.len(),
            carries_out(
                outcomes_of(writes@),
                planned_targets(library_dir_path@, section, documents@.take(i as int)),
            ),
            rejected@ == planned_rejections(library_dir_path@, section, documents@.take(i as int)),
        decreases documents.len() - i,
    {
        let ghost outcomes_before = outcomes_of(writes@);
        proof {
            let next = documents@.take(i + 1);
            assert(next.drop_last() =~= documents@.take(i as int));
            assert(next.last() == documents@[i as int]);
            assert(next.len() - 1 == i);
        }
        let planned = match section {
            Section::Folders => plan_folder(library_dir_path, &documents[i]),
            Section::Papers => Some(plan_paper(library_dir_path, &documents[i])),
        };
        match planned {
            None => {},
            Some(Ok(target)) => {
                let ghost target_view = target@;
                let outcome = encode_target(target);
                let ghost outcome_seen = outcome_view(outcome);
                writes.push(outcome);
                proof {
                    assert(outcomes_of(writes@) =~= outcomes_before.push(outcome_seen));
                    let targets = planned_targets(
                        library_dir_path@,
                        section,
                        documents@.take(i + 1),
                    );
                    assert forall|k: int| 0 <= k < targets.len() implies encodes(
                        #[trigger] outcomes_of(writes@)[k],
                        targets[k],
                    ) by {
                        if k < outcomes_before.len() {
                            assert(outcomes_of(writes@)[k] == outcomes_before[k]);
                        }
                    }
                }
            },
            Some(Err(error)) => {
                rejected.push(Rejected { section, index: i, error });
            },
        }
        i += 1;
    }
    proof {
        assert(documents@.take(i as int) =~= documents@);
    }
    (writes, rejected)
}

/// Plans the save of a library document: for every folder of its `folders`
/// array the write of its metadata file, for every paper of its `papers`
/// array the write of its file inside its folder's directory.
///
/// Nothing is planned for what is on disk and absent from `tree`; a save
/// never deletes. A document that fails validation is left out and reported,
/// and the others are planned all the same. Which documents are planned,
/// where each goes and what text it holds is fixed by `tree`; whether the
/// encoder succeeds on each, and with which bytes, is not.
pub fn plan_library_save(library_dir_path: &str, tree: &Value) -> (plan: SavePlan)
    ensures
        carries_out(outcomes_of(plan.writes@), library_targets(library_dir_path@, *tree)),
        plan.rejected@ == library_rejections(library_dir_path@, *tree),
{
    let mut writes: Vec<Result<FileWrite, Fault>> = Vec::new();
    let mut rejected: Vec<Rejected> = Vec::new();
    match array_field(tree, FOLDERS_FIELD) {
        Some(folders) => {
            let (folder_writes, folder_rejected) = plan_section(
                library_dir_path,
                Section::Folders,
                folders,
            );
            writes = folder_writes;
            rejected = folder_rejected;
        },
        None => {},
    }
    let ghost first = outcomes_of(writes@);
    let ghost first_targets = planned_targets(
        library_dir_path@,
        Section::Folders,
        section_documents(*tree, Section::Folders),
    );
    proof {
        assert(carries_out(first, first_targets));
        assert(rejected@ =~= planned_rejections(
            library_dir_path@,
            Section::Folders,
            section_documents(*tree, Section::Folders),
        ));
    }
    match array_field(tree, PAPERS_FIELD) {
        Some(papers) => {
            let (mut paper_writes, mut paper_rejected) = plan_section(
                library_dir_path,
                Section::Papers,
                papers,
            );
            let ghost second = outcomes_of(paper_writes@);
            writes.append(&mut paper_writes);
            rejected.append(&mut paper_rejected);
            proof {
                assert(outcomes_of(writes@) =~= first + second);
            }
        },
        None => {
            proof {
                assert(outcomes_of(writes@) =~= first + Seq::empty());
            }
        },
    }
    proof {
        let targets = library_targets(library_dir_path@, *tree);
        let outcomes = outcomes_of(writes@);
        assert(outcomes.len() == targets.len());
        assert forall|k: int| 0 <= k < targets.len() implies encodes(
            #[trigger] outcomes[k],
            targets[k],
        ) by {
            if k < first.len() {
                assert(outcomes[k] == first[k]);
                assert(targets[k] == first_targets[k]);
            }
        }
        assert(rejected@ =~= library_rejections(library_dir_path@, *tree));
    }
    SavePlan { writes, rejected }
}

/// Plans the save of a library handed over as JSON text.
///
/// Text that is no JSON document is refused as a whole; otherwise the plan
/// is that of [`plan_library_save`] for the document the text holds.
pub fn save_library(library_dir_path: &str, library_state: &str) -> (r: Result<
    SavePlan,
    StoreError,
>)
    ensures
        match json_parsed(library_state@) {
            None => r matches Err(e) && e == StoreError::Validation,
            Some(tree) => r matches Ok(plan) && carries_out(
                outcomes_of(plan.writes@),
                library_targets(library_dir_path@, tree),
            ) && plan.rejected@ == library_rejections(library_dir_path@, tree),
        },
{
    match parse_document(library_state) {
        Ok(tree) => Ok(plan_library_save(library_dir_path, &tree)),
        Err(_) => Err(StoreError::Validation),
    }
}

/// The entries of a plan that did not reach the disk: each failure of the
/// encoder as it stands, and each write that is reported as not written or
/// for which nothing is reported, as an I/O failure. `written` has one
/// place for each entry of the plan; what it holds at a failure's place is
/// not looked at.
pub open spec fn write_failures(
    outcomes: Seq<Result<FileWriteView, FaultView>>,
    written: Seq<bool>,
) -> Seq<FaultView>
    decreases outcomes.len(),
{
    if outcomes.len() == 0 {
        seq![]
    } else {
        let earlier = write_failures(outcomes.drop_last(), written);
        let i = outcomes.len() - 1;
        match outcomes.last() {
            Ok(write) => if i < written.len() && written[i] {
                earlier
            } else {
                earlier.push(FaultView { path: write.path, error: StoreError::Io })
            },
            Err(fault) => earlier.push(fault),
        }
    }
}

/// Last step of a save: given for each entry of the plan whether it reached
/// the disk, the entries that failed. A failed write does not undo the
/// others.
pub fn save_failures(writes: &[Result<FileWrite, Fault>], written: &[bool]) -> (failures: Vec<
    Fault,
>)
    ensures
        failures_of(failures@) == write_failures(outcomes_of(writes@), written@),
{
    let mut failures: Vec<Fault> = Vec::new();
    let mut i: usize = 0;
    proof {
        assert(outcomes_of(writes@.take(0)) =~= Seq::empty());
        assert(failures_of(failures@) =~= Seq::<FaultView>::empty());
    }
    while i < writes.len()
        invariant
            i <= writes.len(),
            failures_of(failures@) == write_failures(
                outcomes_of(writes@.take(i as int)),
                written@,
            ),
        decreases writes.len() - i,
    {
        let ghost before = failures@;
        proof {
            let next = outcomes_of(writes@.take(i + 1));
            assert(next.drop_last() =~= outcomes_of(writes@.take(i as int)));
            assert(next.last() == outcome_view(writes@[i as int]));
        }
        match &writes[i] {
            Ok(write) => {
                if !(i < written.len() && written[i]) {
                    failures.push(Fault { path: write.path.clone(), error: StoreError::Io });
                    proof {
                        assert(failures_of(failures@) =~= failures_of(before).push(
                            FaultView { path: write@.path, error: StoreError::Io },
                        ));
                    }
                }
            },
            Err(fault) => {
                failures.push(Fault { path: fault.path.clone(), error: fault.error });
                proof {
                    assert(failures_of(failures@) =~= failures_of(before).push(fault@));
                }
            },
        }
        i += 1;
    }
    proof {
        assert(writes@.take(i as int) =~= writes@);
    }
    failures
}

/// Plans the save of the settings: one file, next to the library root, that
/// holds `settings` compressed, whatever text that is.
///
/// The encoder decides whether there is a file to write; if there is, its
/// contents decode to `settings`.
pub fn save_settings(app_data_dir: &str, settings: &str) -> (r: Result<FileWrite, StoreError>)
    ensures
        match r {
            Ok(write) => write.directory@ == app_data_dir@ && write.path@ == settings_file(
                app_data_dir@,
            ) && decoded_text(write.contents@) == Some(settings@),
            Err(e) => e == StoreError::Io,
        },
{
    let target = Target {
        directory: String::from_str(app_data_dir),
        path: get_settings_filepath(app_data_dir),
        text: String::from_str(settings),
    };
    match encode_target(target) {
        Ok(write) => Ok(write),
        Err(fault) => Err(fault.error),
    }
}

/// What deleting a folder removes: its directory, if its identifier can
/// name a folder and a directory stands there.
pub open spec fn folder_removal(library_dir_path: Seq<char>, folder_id: Seq<char>, found: Found)
    -> Result<Option<Seq<char>>, StoreError> {
    if !valid_segment(folder_id) {
        Err(StoreError::Validation)
    } else if found == Found::Directory {
        Ok(Some(folder_dir(library_dir_path, folder_id)))
    } else {
        Ok(None)
    }
}

/// What deleting a paper removes: its file, if both identifiers can name
/// their entities and a file stands there.
pub open spec fn paper_removal(
    library_dir_path: Seq<char>,
    folder_id: Seq<char>,
    paper_id: Seq<char>,
    found: Found,
) -> Result<Option<Seq<char>>, StoreError> {
    if !(valid_segment(folder_id) && valid_paper_id(paper_id)) {
        Err(StoreError::Validation)
    } else if found == Found::File {
        Ok(Some(paper_file(library_dir_path, folder_id, paper_id)))
    } else {
        Ok(None)
    }
}

/// Decides what deleting a folder removes, given what stands at its path:
/// the directory with all it holds if there is one, else nothing.
///
/// Deleting a folder that is not there succeeds and removes nothing.
pub fn delete_library_folder(library_dir_path: &str, folder_id: &str, found: Found) -> (r: Result<
    Option<String>,
    StoreError,
>)
    ensures
        match folder_removal(library_dir_path@, folder_id@, found) {
            Ok(Some(target)) => r matches Ok(Some(path)) && path@ == target,
            Ok(None) => r == Ok::<Option<String>, StoreError>(None),
            Err(e) => r == Err::<Option<String>, StoreError>(e),
        },
{
    let path = match folder_path(library_dir_path, folder_id) {
        Ok(path) => path,
        Err(e) => { return Err(e); },
    };
    match found {
        Found::Directory => Ok(Some(path)),
        _ => Ok(None),
    }
}

/// Decides what deleting a paper removes, given what stands at its path:
/// the file if there is one, else nothing.
///
/// Deleting a paper that is not there succeeds and removes nothing.
pub fn delete_library_paper(
    library_dir_path: &str,
    folder_id: &str,
    paper_id: &str,
    found: Found,
) -> (r: Result<Option<String>, StoreError>)
    ensures
        match paper_removal(library_dir_path@, folder_id@, paper_id@, found) {
            Ok(Some(target)) => r matches Ok(Some(path)) && path@ == target,
            Ok(None) => r == Ok::<Option<String>, StoreError>(None),
            Err(e) => r == Err::<Option<String>, StoreError>(e),
        },
{
    let path = match paper_path(library_dir_path, folder_id, paper_id) {
        Ok(path) => path,
        Err(e) => { return Err(e); },
    };
    match found {
        Found::File => Ok(Some(path)),
        _ => Ok(None),
    }
}

/// What a removal amounts to. That the target was gone already is no
/// failure.
pub open spec fn removal_outcome(removal: Removal) -> Result<(), StoreError> {
    if removal == Removal::Failed {
        Err(StoreError::Io)
    } else {
        Ok(())
    }
}

/// Interprets what a removal gave.
pub fn removal_result(removal: Removal) -> (r: Result<(), StoreError>)
    ensures
        r == removal_outcome(removal),
{
    match removal {
        Removal::Failed => Err(StoreError::Io),
        _ => Ok(()),
    }
}

} // verus!
