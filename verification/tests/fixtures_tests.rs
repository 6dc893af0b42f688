use test_harness::fixtures::{sample_text, tree_ops, FsOp, TreeEntry};
use test_harness::observer::Observer;

#[test]
fn sample_text_three_rows_two_cols() {
    assert_eq!(sample_text(3, 2), "aa\nbb\ncc");
}

#[test]
fn sample_text_single_row() {
    assert_eq!(sample_text(1, 4), "aaaa");
}

#[test]
fn sample_text_empty() {
    assert_eq!(sample_text(0, 5), "");
    assert_eq!(sample_text(2, 0), "\n");
}

#[test]
fn sample_text_full_alphabet() {
    let text = sample_text(26, 1);
    let lines: Vec<&str> = text.split('\n').collect();
    assert_eq!(lines.len(), 26);
    assert_eq!(lines[0], "a");
    assert_eq!(lines[25], "z");
}

#[test]
fn tree_ops_mirror_the_tree() {
    // {"a": {"b.txt": "hi"}, "c": null} becomes: directory a/, file a/b.txt
    // containing "hi", and empty directory c/.
    let tree = TreeEntry::Dir(vec![
        (
            "a".to_string(),
            TreeEntry::Dir(vec![("b.txt".to_string(), TreeEntry::File("hi".to_string()))]),
        ),
        ("c".to_string(), TreeEntry::EmptyDir),
    ]);
    let ops = tree_ops(&tree);
    assert_eq!(
        ops,
        vec![
            FsOp::CreateDir { path: "a".to_string() },
            FsOp::WriteFile { path: "a/b.txt".to_string(), contents: "hi".to_string() },
            FsOp::CreateDir { path: "c".to_string() },
        ]
    );
}

#[test]
fn tree_ops_create_parents_before_children() {
    let tree = TreeEntry::Dir(vec![(
        "outer".to_string(),
        TreeEntry::Dir(vec![(
            "inner".to_string(),
            TreeEntry::Dir(vec![("leaf.txt".to_string(), TreeEntry::File("x".to_string()))]),
        )]),
    )]);
    let ops = tree_ops(&tree);
    assert_eq!(
        ops,
        vec![
            FsOp::CreateDir { path: "outer".to_string() },
            FsOp::CreateDir { path: "outer/inner".to_string() },
            FsOp::WriteFile {
                path: "outer/inner/leaf.txt".to_string(),
                contents: "x".to_string()
            },
        ]
    );
}

#[test]
fn tree_ops_of_empty_tree() {
    let ops = tree_ops(&TreeEntry::Dir(Vec::new()));
    assert!(ops.is_empty());
}

#[test]
fn observer_queues_notifications() {
    let mut observer = Observer::new();
    assert!(!observer.try_recv());
    observer.notify();
    observer.notify();
    assert!(observer.try_recv());
    assert!(observer.try_recv());
    assert!(!observer.try_recv());
}

#[test]
fn observer_discards_after_receiver_drop() {
    let mut observer = Observer::new();
    observer.notify();
    observer.drop_receiver();
    observer.notify();
    // nothing is queued for a dropped receiver; the sends were discarded
}
