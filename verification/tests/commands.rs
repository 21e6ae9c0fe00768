use paper_library::commands::{
    delete_library_folder, delete_library_paper, encode_target, load_documents,
    load_library_folder_papers, load_library_folders, load_settings, plan_folder,
    plan_library_save, plan_paper, planned_write, read_document, removal_result, save_failures,
    save_library, save_settings, Fault, Rejected, SavePlan, Section, Target,
};
use paper_library::error::StoreError;
use paper_library::file::{compress, decompress};
use paper_library::outcome::{FileRead, FileWrite, Found, Listing, LoadedFile, Removal};
use serde_json::Value;

fn doc(text: &str) -> Value {
    serde_json::from_str(text).unwrap()
}

fn names(list: &[&str]) -> Vec<String> {
    list.iter().map(|name| name.to_string()).collect()
}

fn stored(text: &str) -> FileRead {
    FileRead::Contents(compress(text).unwrap())
}

fn loaded(path: &str, read: FileRead) -> LoadedFile {
    LoadedFile { path: path.to_string(), read }
}

fn target(directory: &str, path: &str, text: &str) -> Target {
    Target { directory: directory.to_string(), path: path.to_string(), text: text.to_string() }
}

fn writes_of(plan: &SavePlan) -> Vec<&FileWrite> {
    plan.writes.iter().map(|entry| entry.as_ref().unwrap()).collect()
}

#[test]
fn folders_of_a_library_that_does_not_exist_are_none() {
    assert_eq!(load_library_folders("/lib", &Listing::Missing), Ok(Vec::new()));
}

#[test]
fn folders_of_a_root_that_cannot_be_listed_are_an_error() {
    assert_eq!(load_library_folders("/lib", &Listing::Failed), Err(StoreError::Io));
}

#[test]
fn folders_are_read_from_their_metadata_files() {
    let listing = Listing::Entries(names(&["f2", "f1"]));
    assert_eq!(
        load_library_folders("/lib", &listing),
        Ok(names(&["/lib/f2/folder_info.dat", "/lib/f1/folder_info.dat"]))
    );
}

#[test]
fn hidden_entries_of_the_root_are_no_folders() {
    let listing = Listing::Entries(names(&[".DS_Store", "f1", ".Trash"]));
    assert_eq!(load_library_folders("/lib", &listing), Ok(names(&["/lib/f1/folder_info.dat"])));
}

#[test]
fn folders_of_an_empty_root_are_none() {
    assert_eq!(load_library_folders("/lib", &Listing::Entries(Vec::new())), Ok(Vec::new()));
}

#[test]
fn papers_of_a_folder_that_does_not_exist_are_absent() {
    assert_eq!(load_library_folder_papers("/lib", "f1", &Listing::Missing), Ok(None));
}

#[test]
fn papers_of_a_folder_that_cannot_be_listed_are_an_error() {
    assert_eq!(load_library_folder_papers("/lib", "f1", &Listing::Failed), Err(StoreError::Io));
}

#[test]
fn papers_of_a_folder_with_a_bad_id_are_refused() {
    let listing = Listing::Entries(names(&["p1.dat"]));
    assert_eq!(load_library_folder_papers("/lib", "../x", &listing), Err(StoreError::Validation));
    assert_eq!(
        load_library_folder_papers("/lib", "", &Listing::Missing),
        Err(StoreError::Validation)
    );
}

#[test]
fn papers_are_every_visible_entry_but_the_metadata_file() {
    let listing = Listing::Entries(names(&["p2.dat", "folder_info.dat", ".DS_Store", "p1.dat"]));
    assert_eq!(
        load_library_folder_papers("/lib", "f1", &listing),
        Ok(Some(names(&["/lib/f1/p2.dat", "/lib/f1/p1.dat"])))
    );
}

#[test]
fn papers_of_a_folder_with_only_metadata_are_an_empty_sequence() {
    let listing = Listing::Entries(names(&["folder_info.dat"]));
    assert_eq!(load_library_folder_papers("/lib", "f1", &listing), Ok(Some(Vec::new())));
}

#[test]
fn read_document_tells_absent_from_unreadable_from_corrupt() {
    assert_eq!(read_document(&FileRead::Missing), Err(StoreError::NotFound));
    assert_eq!(read_document(&FileRead::Failed), Err(StoreError::Io));
    assert_eq!(read_document(&FileRead::Contents(vec![9, 9, 9, 9])), Err(StoreError::CorruptData));
    assert_eq!(read_document(&stored(r#"{"id":"f1"}"#)), Ok(doc(r#"{"id":"f1"}"#)));
}

#[test]
fn load_documents_decodes_each_file_in_order() {
    let files = vec![
        loaded("/lib/f1/folder_info.dat", stored(r#"{"id":"f1","name":"One"}"#)),
        loaded("/lib/f2/folder_info.dat", stored(r#"{"id":"f2","name":"Two"}"#)),
    ];
    let report = load_documents(&files);
    assert_eq!(
        report.documents,
        vec![doc(r#"{"id":"f1","name":"One"}"#), doc(r#"{"id":"f2","name":"Two"}"#)]
    );
    assert!(report.failures.is_empty());
}

#[test]
fn a_corrupt_file_does_not_keep_the_others_from_loading() {
    let files = vec![
        loaded("/lib/f1/folder_info.dat", stored(r#"{"id":"f1"}"#)),
        loaded("/lib/f2/folder_info.dat", FileRead::Contents(vec![0xde, 0xad, 0xbe, 0xef])),
        loaded("/lib/f3/folder_info.dat", stored(r#"{"id":"f3"}"#)),
    ];
    let report = load_documents(&files);
    assert_eq!(report.documents, vec![doc(r#"{"id":"f1"}"#), doc(r#"{"id":"f3"}"#)]);
    assert_eq!(report.failures.len(), 1);
    assert_eq!(report.failures[0].path, "/lib/f2/folder_info.dat");
    assert_eq!(report.failures[0].error, StoreError::CorruptData);
}

#[test]
fn load_documents_reports_each_kind_of_failure() {
    let files = vec![
        loaded("a", FileRead::Failed),
        loaded("b", FileRead::Missing),
        loaded("c", stored("this is text, not a document")),
        loaded("d", stored("[1,2,3]")),
    ];
    let report = load_documents(&files);
    assert_eq!(report.documents, vec![doc("[1,2,3]")]);
    let failures: Vec<(&str, StoreError)> =
        report.failures.iter().map(|f| (f.path.as_str(), f.error)).collect();
    assert_eq!(failures, vec![("a", StoreError::Io), ("c", StoreError::CorruptData)]);
}

#[test]
fn load_documents_of_no_files_is_empty() {
    let report = load_documents(&[]);
    assert!(report.documents.is_empty());
    assert!(report.failures.is_empty());
}

#[test]
fn settings_that_were_never_saved_are_absent() {
    assert_eq!(load_settings(&FileRead::Missing), Ok(None));
}

#[test]
fn settings_are_the_document_in_the_file() {
    assert_eq!(
        load_settings(&stored(r#"{"theme":"dark","fontSize":14}"#)),
        Ok(Some(doc(r#"{"fontSize":14,"theme":"dark"}"#)))
    );
}

#[test]
fn settings_that_cannot_be_read_or_decoded_are_an_error() {
    assert_eq!(load_settings(&FileRead::Failed), Err(StoreError::Io));
    assert_eq!(load_settings(&FileRead::Contents(vec![1])), Err(StoreError::CorruptData));
    assert_eq!(load_settings(&stored("{")), Err(StoreError::CorruptData));
}

#[test]
fn save_settings_writes_one_file_next_to_the_library() {
    let write = save_settings("/data", r#"{"theme":"dark"}"#).unwrap();
    assert_eq!(write.directory, "/data");
    assert_eq!(write.path, "/data/settings.dat");
    assert_eq!(decompress(&write.contents), Ok(r#"{"theme":"dark"}"#.to_string()));
}

#[test]
fn save_settings_stores_the_text_as_it_is() {
    let write = save_settings("/data", "  not even json ").unwrap();
    assert_eq!(decompress(&write.contents), Ok("  not even json ".to_string()));
}

#[test]
fn plan_folder_targets_the_metadata_file() {
    let folder = doc(r#"{"id":"f1","name":"Reading list"}"#);
    let planned = plan_folder("/lib", &folder).unwrap().unwrap();
    assert_eq!(planned.directory, "/lib/f1");
    assert_eq!(planned.path, "/lib/f1/folder_info.dat");
    assert_eq!(planned.text, r#"{"id":"f1","name":"Reading list"}"#);
}

#[test]
fn plan_folder_passes_over_a_folder_without_a_string_id() {
    assert!(plan_folder("/lib", &doc(r#"{"name":"no id"}"#)).is_none());
    assert!(plan_folder("/lib", &doc(r#"{"id":12}"#)).is_none());
    assert!(plan_folder("/lib", &doc(r#"["id"]"#)).is_none());
}

#[test]
fn plan_folder_refuses_an_id_that_is_no_segment() {
    for text in [r#"{"id":""}"#, r#"{"id":"a/b"}"#, r#"{"id":".."}"#, r#"{"id":".x"}"#] {
        let outcome = plan_folder("/lib", &doc(text)).unwrap();
        assert_eq!(outcome.err(), Some(StoreError::Validation), "{}", text);
    }
}

#[test]
fn plan_paper_targets_the_folder_it_names() {
    let paper = doc(r#"{"id":"p1","folderId":"f1","title":"T"}"#);
    let planned = plan_paper("/lib", &paper).unwrap();
    assert_eq!(planned.directory, "/lib/f1");
    assert_eq!(planned.path, "/lib/f1/p1.dat");
    assert_eq!(planned.text, r#"{"folderId":"f1","id":"p1","title":"T"}"#);
}

#[test]
fn plan_paper_refuses_a_paper_without_its_ids() {
    for text in [
        r#"{"id":"p1"}"#,
        r#"{"folderId":"f1"}"#,
        r#"{}"#,
        r#"{"id":1,"folderId":"f1"}"#,
        r#"{"id":"p1","folderId":null}"#,
        r#"{"id":"folder_info","folderId":"f1"}"#,
        r#"{"id":"p/1","folderId":"f1"}"#,
        r#"{"id":"p1","folderId":"../f1"}"#,
        r#"{"id":"","folderId":"f1"}"#,
        r#"[]"#,
    ] {
        assert_eq!(plan_paper("/lib", &doc(text)).err(), Some(StoreError::Validation), "{}", text);
    }
}

#[test]
fn planned_write_puts_the_bytes_at_the_target() {
    let write = planned_write(target("/lib/f1", "/lib/f1/p1.dat", "{}"), Ok(vec![1, 2, 3])).unwrap();
    assert_eq!(write.directory, "/lib/f1");
    assert_eq!(write.path, "/lib/f1/p1.dat");
    assert_eq!(write.contents, vec![1, 2, 3]);
}

#[test]
fn planned_write_reports_a_failure_under_the_target_path() {
    for error in [StoreError::Io, StoreError::CorruptData] {
        let fault = planned_write(target("/lib/f1", "/lib/f1/p1.dat", "{}"), Err(error)).unwrap_err();
        assert_eq!(fault.path, "/lib/f1/p1.dat");
        assert_eq!(fault.error, error);
    }
}

#[test]
fn encode_target_compresses_the_text_of_the_target() {
    let write = encode_target(target("/lib/f1", "/lib/f1/p1.dat", r#"{"id":"p1"}"#)).unwrap();
    assert_eq!(write.directory, "/lib/f1");
    assert_eq!(write.path, "/lib/f1/p1.dat");
    assert_ne!(write.contents, r#"{"id":"p1"}"#.as_bytes().to_vec());
    assert_eq!(decompress(&write.contents), Ok(r#"{"id":"p1"}"#.to_string()));
}

#[test]
fn save_plans_folders_first_then_papers() {
    let state = r#"{"folders":[{"id":"f1"},{"id":"f2"}],
                    "papers":[{"id":"p1","folderId":"f1"},{"id":"p2","folderId":"f2"}]}"#;
    let plan = save_library("/lib", state).unwrap();
    let writes = writes_of(&plan);
    let paths: Vec<&str> = writes.iter().map(|w| w.path.as_str()).collect();
    assert_eq!(
        paths,
        vec!["/lib/f1/folder_info.dat", "/lib/f2/folder_info.dat", "/lib/f1/p1.dat", "/lib/f2/p2.dat"]
    );
    let directories: Vec<&str> = writes.iter().map(|w| w.directory.as_str()).collect();
    assert_eq!(directories, vec!["/lib/f1", "/lib/f2", "/lib/f1", "/lib/f2"]);
    let texts: Vec<String> = writes.iter().map(|w| decompress(&w.contents).unwrap()).collect();
    assert_eq!(
        texts,
        vec![
            r#"{"id":"f1"}"#,
            r#"{"id":"f2"}"#,
            r#"{"folderId":"f1","id":"p1"}"#,
            r#"{"folderId":"f2","id":"p2"}"#
        ]
    );
    assert!(plan.rejected.is_empty());
}

#[test]
fn save_leaves_out_what_fails_validation_and_plans_the_rest() {
    let state = r#"{"folders":[{"id":"a/b"},{"name":"no id"},{"id":"f1"}],
                    "papers":[{"id":"p1"},{"id":"p2","folderId":"f1"},{"id":"folder_info","folderId":"f1"}]}"#;
    let plan = save_library("/lib", state).unwrap();
    let paths: Vec<&str> = writes_of(&plan).iter().map(|w| w.path.as_str()).collect();
    assert_eq!(paths, vec!["/lib/f1/folder_info.dat", "/lib/f1/p2.dat"]);
    assert_eq!(
        plan.rejected,
        vec![
            Rejected { section: Section::Folders, index: 0, error: StoreError::Validation },
            Rejected { section: Section::Papers, index: 0, error: StoreError::Validation },
            Rejected { section: Section::Papers, index: 2, error: StoreError::Validation },
        ]
    );
}

#[test]
fn save_of_a_document_without_the_arrays_plans_nothing() {
    for state in ["{}", r#"{"folders":{},"papers":7}"#, "[]", "null", r#"{"folders":[],"papers":[]}"#] {
        let plan = save_library("/lib", state).unwrap();
        assert!(plan.writes.is_empty(), "{}", state);
        assert!(plan.rejected.is_empty(), "{}", state);
    }
}

#[test]
fn save_of_papers_alone_plans_the_papers() {
    let plan = save_library("/lib", r#"{"papers":[{"id":"p9","folderId":"f3"}]}"#).unwrap();
    let writes = writes_of(&plan);
    assert_eq!(writes.len(), 1);
    assert_eq!(writes[0].directory, "/lib/f3");
    assert_eq!(writes[0].path, "/lib/f3/p9.dat");
}

#[test]
fn save_refuses_text_that_is_no_json() {
    assert_eq!(save_library("/lib", "{folders:").err(), Some(StoreError::Validation));
    assert_eq!(save_library("/lib", "").err(), Some(StoreError::Validation));
}

#[test]
fn plan_library_save_agrees_with_save_library() {
    let state = r#"{"folders":[{"id":"f1"}],"papers":[{"id":"p1","folderId":"f1"}]}"#;
    let from_text = save_library("/lib", state).unwrap();
    let from_tree = plan_library_save("/lib", &doc(state));
    assert_eq!(from_text.writes.len(), 2);
    assert_eq!(from_tree.writes.len(), 2);
    for (a, b) in writes_of(&from_text).iter().zip(writes_of(&from_tree).iter()) {
        assert_eq!((&a.directory, &a.path), (&b.directory, &b.path));
        assert_eq!(decompress(&a.contents), decompress(&b.contents));
    }
}

#[test]
fn save_failures_are_the_writes_that_did_not_reach_the_disk() {
    let state = r#"{"folders":[{"id":"f1"},{"id":"f2"}],"papers":[{"id":"p1","folderId":"f1"}]}"#;
    let plan = save_library("/lib", state).unwrap();
    assert!(save_failures(&plan.writes, &[true, true, true]).is_empty());
    let failures = save_failures(&plan.writes, &[true, false, true]);
    assert_eq!(failures.len(), 1);
    assert_eq!(failures[0].path, "/lib/f2/folder_info.dat");
    assert_eq!(failures[0].error, StoreError::Io);
}

#[test]
fn a_write_that_was_not_reported_counts_as_failed() {
    let plan = save_library("/lib", r#"{"folders":[{"id":"f1"},{"id":"f2"}]}"#).unwrap();
    let failures = save_failures(&plan.writes, &[true]);
    let paths: Vec<&str> = failures.iter().map(|f| f.path.as_str()).collect();
    assert_eq!(paths, vec!["/lib/f2/folder_info.dat"]);
    assert!(save_failures(&[], &[false, false]).is_empty());
}

#[test]
fn a_failure_of_the_encoder_is_a_save_failure_whatever_is_reported() {
    let entries = vec![
        encode_target(target("/lib/f1", "/lib/f1/folder_info.dat", "{}")),
        Err(Fault { path: "/lib/f1/p1.dat".to_string(), error: StoreError::Io }),
        encode_target(target("/lib/f1", "/lib/f1/p2.dat", "{}")),
    ];
    for written in [[true, true, true], [true, false, true]] {
        let failures = save_failures(&entries, &written);
        let seen: Vec<(&str, StoreError)> =
            failures.iter().map(|f| (f.path.as_str(), f.error)).collect();
        assert_eq!(seen, vec![("/lib/f1/p1.dat", StoreError::Io)]);
    }
    let failures = save_failures(&entries, &[false, true, true]);
    let paths: Vec<&str> = failures.iter().map(|f| f.path.as_str()).collect();
    assert_eq!(paths, vec!["/lib/f1/folder_info.dat", "/lib/f1/p1.dat"]);
}

#[test]
fn deleting_a_folder_removes_its_directory() {
    assert_eq!(
        delete_library_folder("/lib", "f1", Found::Directory),
        Ok(Some("/lib/f1".to_string()))
    );
}

#[test]
fn deleting_a_folder_that_is_not_there_removes_nothing() {
    assert_eq!(delete_library_folder("/lib", "f1", Found::Nothing), Ok(None));
    assert_eq!(delete_library_folder("/lib", "f1", Found::File), Ok(None));
}

#[test]
fn deleting_a_folder_with_a_bad_id_is_refused() {
    for found in [Found::Nothing, Found::File, Found::Directory] {
        assert_eq!(delete_library_folder("/lib", "..", found), Err(StoreError::Validation));
        assert_eq!(delete_library_folder("/lib", "", found), Err(StoreError::Validation));
        assert_eq!(delete_library_folder("/lib", "a/../..", found), Err(StoreError::Validation));
    }
}

#[test]
fn deleting_a_paper_removes_its_file() {
    assert_eq!(
        delete_library_paper("/lib", "f1", "p1", Found::File),
        Ok(Some("/lib/f1/p1.dat".to_string()))
    );
}

#[test]
fn deleting_a_paper_that_is_not_there_removes_nothing() {
    assert_eq!(delete_library_paper("/lib", "f1", "p1", Found::Nothing), Ok(None));
    assert_eq!(delete_library_paper("/lib", "f1", "p1", Found::Directory), Ok(None));
}

#[test]
fn deleting_a_paper_never_reaches_the_metadata_file() {
    for found in [Found::Nothing, Found::File, Found::Directory] {
        assert_eq!(
            delete_library_paper("/lib", "f1", "folder_info", found),
            Err(StoreError::Validation)
        );
        assert_eq!(delete_library_paper("/lib", "f1", "../x", found), Err(StoreError::Validation));
        assert_eq!(delete_library_paper("/lib", ".", "p1", found), Err(StoreError::Validation));
    }
}

#[test]
fn a_removal_fails_only_if_it_failed() {
    assert_eq!(removal_result(Removal::Removed), Ok(()));
    assert_eq!(removal_result(Removal::Missing), Ok(()));
    assert_eq!(removal_result(Removal::Failed), Err(StoreError::Io));
}
