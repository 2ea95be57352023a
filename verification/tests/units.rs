//! Unit tests for classification, path text handling, hidden-entry
//! exclusion, metadata, previews and sizing.

use folder_cleaner::classify::get_file_type;
use folder_cleaner::listing::list_files;
use folder_cleaner::metadata::{get_file_metadata, StatOutcome};
use folder_cleaner::preview::{read_text_preview, ReadOutcome};
use folder_cleaner::snapshot::{directory_size, get_folder_contents_count, Entry};
use folder_cleaner::tree::build_tree;

#[test]
fn classification_is_case_insensitive() {
    assert_eq!(get_file_type("JPG"), "image");
    assert_eq!(get_file_type("jpeg"), "image");
    assert_eq!(get_file_type("Png"), "image");
    assert_eq!(get_file_type("pdf"), "pdf");
    assert_eq!(get_file_type("PDF"), "pdf");
    assert_eq!(get_file_type("Rs"), "text");
    assert_eq!(get_file_type("YAML"), "text");
    assert_eq!(get_file_type("zip"), "other");
    assert_eq!(get_file_type(""), "other");
}

fn tree_with_hidden() -> Entry {
    Entry::Dir {
        name: String::from("x"),
        children: vec![
            Entry::File { name: String::from(".cache"), size: 999 },
            Entry::File { name: String::from("a.txt"), size: 100 },
            Entry::Dir {
                name: String::from("sub"),
                children: vec![
                    Entry::File { name: String::from("b.png"), size: 50 },
                    Entry::Dir { name: String::from(".git"), children: vec![
                        Entry::File { name: String::from("HEAD"), size: 30 },
                    ] },
                ],
            },
        ],
    }
}

#[test]
fn hidden_entries_are_excluded_everywhere() {
    let root = tree_with_hidden();
    // Size: neither .cache nor anything under .git counts.
    assert_eq!(directory_size(&root), 150);
    // Listing: .cache never appears.
    let rows = list_files(&String::from("/tmp/x"), &Some(tree_with_hidden()), Some(true)).unwrap();
    assert!(rows.iter().all(|r| r.name != ".cache"));
    assert_eq!(rows.len(), 2);
    // Tree: no hidden child is materialized at any depth.
    let tree = build_tree(&root, 0, 5);
    let children = tree.children.as_ref().unwrap();
    assert!(children.iter().all(|n| !n.name.starts_with('.')));
    assert_eq!(tree.size, 150);
    // Counts: the hidden file and the hidden folder's contents are ignored.
    let (files, folders) = get_folder_contents_count(&Some(tree_with_hidden())).unwrap();
    assert_eq!((files, folders), (2, 1));
}

#[test]
fn sorting_is_folders_first_then_case_insensitive() {
    let root = Entry::Dir {
        name: String::from("x"),
        children: vec![
            Entry::File { name: String::from("b.txt"), size: 1 },
            Entry::File { name: String::from("A.txt"), size: 2 },
            Entry::Dir { name: String::from("zeta"), children: vec![] },
            Entry::Dir { name: String::from("Alpha"), children: vec![] },
        ],
    };
    let rows = list_files(&String::from("/x"), &Some(root), Some(true)).unwrap();
    let names: Vec<&str> = rows.iter().map(|r| r.name.as_str()).collect();
    assert_eq!(names, vec!["Alpha", "zeta", "A.txt", "b.txt"]);
}

#[test]
fn metadata_is_derived_from_the_path_text() {
    let meta = get_file_metadata(
        String::from("/tmp/docs/Report.PDF"),
        &StatOutcome::Found { size: 42 },
    )
    .unwrap();
    assert_eq!(meta.path, "/tmp/docs/Report.PDF");
    assert_eq!(meta.name, "Report.PDF");
    assert_eq!(meta.extension, "PDF");
    assert_eq!(meta.file_type, "pdf");
    assert_eq!(meta.size, 42);
}

#[test]
fn metadata_keeps_dotfile_without_extension() {
    let meta = get_file_metadata(
        String::from("/home/user/.profile"),
        &StatOutcome::Found { size: 7 },
    )
    .unwrap();
    assert_eq!(meta.name, ".profile");
    assert_eq!(meta.extension, "");
    assert_eq!(meta.file_type, "other");
}

#[test]
fn metadata_errors() {
    assert_eq!(
        get_file_metadata(String::from("/gone"), &StatOutcome::Missing).unwrap_err(),
        "File does not exist"
    );
    assert_eq!(
        get_file_metadata(
            String::from("/locked"),
            &StatOutcome::Unreadable(String::from("permission denied"))
        )
        .unwrap_err(),
        "Failed to get metadata: permission denied"
    );
}

#[test]
fn preview_truncates_by_characters() {
    let text = ReadOutcome::Content(String::from("héllo wörld"));
    assert_eq!(read_text_preview(&text, 5).unwrap(), "héllo");
    assert_eq!(read_text_preview(&text, 100).unwrap(), "héllo wörld");
    assert_eq!(read_text_preview(&text, 0).unwrap(), "");
}

#[test]
fn preview_errors() {
    assert_eq!(
        read_text_preview(&ReadOutcome::Missing, 10).unwrap_err(),
        "File does not exist"
    );
    assert_eq!(
        read_text_preview(&ReadOutcome::Unreadable(String::from("stream did not contain valid UTF-8")), 10)
            .unwrap_err(),
        "Failed to read file: stream did not contain valid UTF-8"
    );
}

#[test]
fn file_leaf_keeps_its_own_size() {
    let leaf = Entry::File { name: String::from("a.bin"), size: 9 };
    let node = build_tree(&leaf, 0, 3);
    assert_eq!(node.name, "a.bin");
    assert!(!node.is_directory);
    assert_eq!(node.size, 9);
    assert!(node.children.is_none());
    assert_eq!(directory_size(&leaf), 9);
}

#[test]
fn equal_keys_keep_input_order() {
    // "ab.txt" and "AB.txt" compare equal case-insensitively; a stable
    // sort keeps them as enumerated.
    let root = Entry::Dir {
        name: String::from("x"),
        children: vec![
            Entry::File { name: String::from("ab.txt"), size: 1 },
            Entry::File { name: String::from("AB.txt"), size: 2 },
        ],
    };
    let rows = list_files(&String::from("/x"), &Some(root), None).unwrap();
    let names: Vec<&str> = rows.iter().map(|r| r.name.as_str()).collect();
    assert_eq!(names, vec!["ab.txt", "AB.txt"]);
}

#[test]
fn extension_is_the_part_after_the_last_dot() {
    let meta = get_file_metadata(
        String::from("/tmp/archive.tar.gz"),
        &StatOutcome::Found { size: 1 },
    )
    .unwrap();
    assert_eq!(meta.name, "archive.tar.gz");
    assert_eq!(meta.extension, "gz");
    let trailing = get_file_metadata(String::from("/tmp/odd."), &StatOutcome::Found { size: 1 })
        .unwrap();
    assert_eq!(trailing.extension, "");
    let plain = get_file_metadata(String::from("/tmp/README"), &StatOutcome::Found { size: 1 })
        .unwrap();
    assert_eq!(plain.extension, "");
    assert_eq!(plain.name, "README");
}

#[test]
fn empty_directory_has_size_zero() {
    let root = Entry::Dir { name: String::from("empty"), children: vec![] };
    assert_eq!(directory_size(&root), 0);
    let (files, folders) = get_folder_contents_count(&Some(root)).unwrap();
    assert_eq!((files, folders), (0, 0));
}
