//! End-to-end scenarios on a small snapshot: a directory `/tmp/x` holding
//! `a.txt` (100 bytes) and a subfolder `sub/` holding `b.png` (50 bytes).

use folder_cleaner::listing::list_files;
use folder_cleaner::mutation::{delete_files, DeleteAttempt, DeleteOutcome};
use folder_cleaner::snapshot::{get_folder_contents_count, Entry};
use folder_cleaner::tree::{build_tree, list_directory_tree};

fn sample_root() -> Entry {
    Entry::Dir {
        name: String::from("x"),
        children: vec![
            Entry::File { name: String::from("a.txt"), size: 100 },
            Entry::Dir {
                name: String::from("sub"),
                children: vec![Entry::File { name: String::from("b.png"), size: 50 }],
            },
        ],
    }
}

#[test]
fn list_files_orders_folder_first_with_sizes() {
    let root = Some(sample_root());
    let rows = list_files(&String::from("/tmp/x"), &root, Some(true)).unwrap();
    assert_eq!(rows.len(), 2);
    assert_eq!(rows[0].name, "sub");
    assert_eq!(rows[0].size, 50);
    assert!(rows[0].is_directory);
    assert_eq!(rows[0].file_type, "folder");
    assert_eq!(rows[0].path, "/tmp/x/sub");
    assert_eq!(rows[1].name, "a.txt");
    assert_eq!(rows[1].size, 100);
    assert!(!rows[1].is_directory);
    assert_eq!(rows[1].file_type, "text");
    assert_eq!(rows[1].path, "/tmp/x/a.txt");
}

#[test]
fn list_files_without_folders_lists_files_only() {
    let root = Some(sample_root());
    let rows = list_files(&String::from("/tmp/x"), &root, None).unwrap();
    assert_eq!(rows.len(), 1);
    assert_eq!(rows[0].name, "a.txt");
}

#[test]
fn contents_count_sees_two_files_one_folder() {
    let root = Some(sample_root());
    let (files, folders) = get_folder_contents_count(&root).unwrap();
    assert_eq!(files, 2);
    assert_eq!(folders, 1);
}

#[test]
fn delete_batch_partitions_input() {
    let attempts = vec![
        DeleteAttempt {
            path: String::from("/tmp/x/a.txt"),
            outcome: DeleteOutcome::Removed,
        },
        DeleteAttempt {
            path: String::from("/tmp/x/missing.txt"),
            outcome: DeleteOutcome::Missing,
        },
    ];
    let report = delete_files(&attempts);
    assert_eq!(report.success, vec![String::from("/tmp/x/a.txt")]);
    assert_eq!(report.failed.len(), 1);
    assert_eq!(report.failed[0].0, "/tmp/x/missing.txt");
    assert_eq!(report.failed[0].1, "File does not exist");
    assert_eq!(report.success.len() + report.failed.len(), attempts.len());
}

#[test]
fn delete_batch_keeps_underlying_error_text() {
    let attempts = vec![DeleteAttempt {
        path: String::from("/tmp/x/locked.txt"),
        outcome: DeleteOutcome::Failed(String::from("permission denied")),
    }];
    let report = delete_files(&attempts);
    assert!(report.success.is_empty());
    assert_eq!(report.failed[0].1, "permission denied");
}

#[test]
fn tree_total_is_depth_independent() {
    let root = sample_root();
    let sizes: Vec<u64> = (0..4).map(|k| build_tree(&root, 0, k).size).collect();
    assert_eq!(sizes, vec![150, 150, 150, 150]);
}

#[test]
fn tree_and_listing_agree_on_child_order() {
    let root = sample_root();
    let tree = build_tree(&root, 0, 3);
    let children = tree.children.unwrap();
    let rows = list_files(&String::from("/tmp/x"), &Some(sample_root()), Some(true)).unwrap();
    assert_eq!(children.len(), rows.len());
    for (node, row) in children.iter().zip(rows.iter()) {
        assert_eq!(node.name, row.name);
        assert_eq!(node.is_directory, row.is_directory);
    }
}

#[test]
fn tree_stops_materializing_at_the_bound() {
    let root = sample_root();
    let tree = list_directory_tree(&Some(root), Some(1)).unwrap();
    assert_eq!(tree.size, 150);
    let children = tree.children.unwrap();
    // Depth one: the subfolder appears but its own children do not.
    assert_eq!(children[0].name, "sub");
    assert!(children[0].children.is_none());
    assert_eq!(children[0].size, 50);
}

#[test]
fn root_errors_are_reported_once() {
    assert_eq!(
        list_directory_tree(&None, None).unwrap_err(),
        "Folder does not exist"
    );
    let file = Some(Entry::File { name: String::from("a.txt"), size: 1 });
    assert_eq!(
        list_directory_tree(&file, None).unwrap_err(),
        "Path is not a directory"
    );
    assert_eq!(
        list_files(&String::from("/tmp/a.txt"), &file, None).unwrap_err(),
        "Path is not a directory"
    );
    assert_eq!(
        get_folder_contents_count(&None).unwrap_err(),
        "Folder does not exist"
    );
}
