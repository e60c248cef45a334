use std::io::Write;

use checksum::compare::{all_match, compare_dirs, read_files, ComparisonResult};
use checksum::error::{Error, OperationKind};
use tempfile::{Builder, NamedTempFile, TempDir};

fn named_file_in(dir: &std::path::Path, name: &str, content: &[u8]) -> NamedTempFile {
    let mut f = Builder::new()
        .prefix(name)
        .suffix("")
        .rand_bytes(0)
        .tempfile_in(dir)
        .unwrap();
    f.write_all(content).unwrap();
    f.flush().unwrap();
    f
}

fn named_dir_in(dir: &std::path::Path, name: &str) -> TempDir {
    Builder::new()
        .prefix(name)
        .suffix("")
        .rand_bytes(0)
        .tempdir_in(dir)
        .unwrap()
}

#[test]
fn full_diff_matches_when_right_holds_everything_plus_extras() {
    let a = tempfile::tempdir().unwrap();
    let b = tempfile::tempdir().unwrap();
    let a_sub = named_dir_in(a.path(), "sub");
    let b_sub = named_dir_in(b.path(), "sub");
    let _ax = named_file_in(a.path(), "x.txt", b"hello");
    let _ay = named_file_in(a_sub.path(), "y.txt", b"y");
    let _bx = named_file_in(b.path(), "x.txt", b"hello");
    let _by = named_file_in(b_sub.path(), "y.txt", b"y");
    let _bz = named_file_in(b.path(), "z.txt", b"only on the right");

    let left = a.path().to_str().unwrap().to_string();
    let right = b.path().to_str().unwrap().to_string();
    let outcomes = compare_dirs(&left, &right, true).unwrap();

    assert_eq!(outcomes.len(), 2);
    let mut relatives: Vec<&str> = outcomes.iter().map(|o| o.relative.as_str()).collect();
    relatives.sort();
    assert_eq!(relatives, vec!["sub/y.txt", "x.txt"]);
    assert!(outcomes.iter().all(|o| o.result == ComparisonResult::Match));
    assert!(all_match(&outcomes));
}

#[test]
fn full_diff_reports_changed_content_as_mismatch() {
    let a = tempfile::tempdir().unwrap();
    let b = tempfile::tempdir().unwrap();
    let _ax = named_file_in(a.path(), "x.txt", b"hello");
    let _bx = named_file_in(b.path(), "x.txt", b"world");

    let left = a.path().to_str().unwrap().to_string();
    let right = b.path().to_str().unwrap().to_string();
    let outcomes = compare_dirs(&left, &right, true).unwrap();

    assert_eq!(outcomes.len(), 1);
    assert_eq!(outcomes[0].relative, "x.txt");
    assert_eq!(outcomes[0].result, ComparisonResult::Mismatch);
    assert!(!all_match(&outcomes));
}

#[test]
fn diff_reports_left_only_files_as_missing() {
    let a = tempfile::tempdir().unwrap();
    let b = tempfile::tempdir().unwrap();
    let _ax = named_file_in(a.path(), "only.txt", b"left only");

    let left = a.path().to_str().unwrap().to_string();
    let right = b.path().to_str().unwrap().to_string();
    let outcomes = compare_dirs(&left, &right, true).unwrap();

    assert_eq!(outcomes.len(), 1);
    assert_eq!(outcomes[0].relative, "only.txt");
    assert_eq!(outcomes[0].result, ComparisonResult::Missing);
}

#[test]
fn diffing_a_tree_against_itself_is_refused() {
    let a = tempfile::tempdir().unwrap();
    let left = a.path().to_str().unwrap().to_string();
    assert!(matches!(
        compare_dirs(&left, &left, true),
        Err(Error::InvalidOperation(OperationKind::Child))
    ));
}

#[test]
fn hidden_files_are_excluded_from_the_walk() {
    let a = tempfile::tempdir().unwrap();
    let b = tempfile::tempdir().unwrap();
    let _ax = named_file_in(a.path(), "seen.txt", b"data");
    let _ah = named_file_in(a.path(), ".hidden", b"secret");
    let _bx = named_file_in(b.path(), "seen.txt", b"data");

    let left = a.path().to_str().unwrap().to_string();
    let right = b.path().to_str().unwrap().to_string();
    let outcomes = compare_dirs(&left, &right, true).unwrap();

    assert_eq!(outcomes.len(), 1);
    assert_eq!(outcomes[0].relative, "seen.txt");
    assert!(all_match(&outcomes));
}

#[test]
fn fast_diff_accepts_unchanged_trees() {
    let a = tempfile::tempdir().unwrap();
    let b = tempfile::tempdir().unwrap();
    let _ax = named_file_in(a.path(), "x.txt", b"hello");
    let _bx = named_file_in(b.path(), "x.txt", b"hello");

    let left = a.path().to_str().unwrap().to_string();
    let right = b.path().to_str().unwrap().to_string();
    let outcomes = compare_dirs(&left, &right, false).unwrap();
    assert!(all_match(&outcomes));
}

#[test]
fn the_walker_includes_hidden_files_only_on_request() {
    let a = tempfile::tempdir().unwrap();
    let _seen = named_file_in(a.path(), "seen.txt", b"data");
    let _hidden = named_file_in(a.path(), ".hidden", b"secret");
    let root = a.path().to_str().unwrap().to_string();

    let visible = read_files(&root, false);
    assert_eq!(visible.len(), 1);
    assert!(visible[0].ends_with("seen.txt"));

    let mut everything = read_files(&root, true);
    everything.sort();
    assert_eq!(everything.len(), 2);
    assert!(everything[0].ends_with(".hidden"));
    assert!(everything[1].ends_with("seen.txt"));
}
