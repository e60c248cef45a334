use std::io::Write;

use checksum::compare::{
    all_match, compare_contents, compare_with, ensure_distinct, filter_walked, Blake3Comparer,
    ComparisonResult, DirectoryIndex, FastComparer, FileEntry,
};
use checksum::error::{Error, OperationKind};
use tempfile::NamedTempFile;

fn temp_file_with(content: &[u8]) -> NamedTempFile {
    let mut f = NamedTempFile::new().unwrap();
    f.write_all(content).unwrap();
    f.flush().unwrap();
    f
}

fn path_of(f: &NamedTempFile) -> String {
    f.path().to_str().unwrap().to_string()
}

#[test]
fn compare_with_is_reflexive_under_both_comparers() {
    let f = temp_file_with(b"some content");
    let p = path_of(&f);
    assert!(compare_with(true, &p, &p).unwrap());
    assert!(compare_with(false, &p, &p).unwrap());
}

#[test]
fn byte_identical_files_compare_equal_in_full_mode() {
    let a = temp_file_with(b"identical bytes");
    let b = temp_file_with(b"identical bytes");
    assert!(compare_with(true, &path_of(&a), &path_of(&b)).unwrap());
}

#[test]
fn a_single_differing_byte_fails_full_comparison() {
    let a = temp_file_with(b"identical bytes");
    let b = temp_file_with(b"identicaX bytes");
    assert!(!compare_with(true, &path_of(&a), &path_of(&b)).unwrap());
}

#[test]
fn a_missing_file_is_a_fatal_io_error() {
    let a = temp_file_with(b"content");
    let gone = "/nonexistent/surely/not/here".to_string();
    assert!(matches!(compare_with(true, &path_of(&a), &gone), Err(Error::Io(_))));
    assert!(matches!(compare_with(false, &path_of(&a), &gone), Err(Error::Io(_))));
}

#[test]
fn extra_right_side_files_are_never_reported() {
    // Right holds every left file unchanged plus an extra one: all-match.
    let x_left = temp_file_with(b"hello");
    let y_left = temp_file_with(b"y");
    let x_right = temp_file_with(b"hello");
    let y_right = temp_file_with(b"y");
    let z_right = temp_file_with(b"only on the right");

    let left = vec![
        FileEntry { relative: "x.txt".to_string(), absolute: path_of(&x_left) },
        FileEntry { relative: "sub/y.txt".to_string(), absolute: path_of(&y_left) },
    ];
    let mut right = DirectoryIndex::new();
    right.insert("x.txt".to_string(), path_of(&x_right));
    right.insert("sub/y.txt".to_string(), path_of(&y_right));
    right.insert("z.txt".to_string(), path_of(&z_right));

    let outcomes = compare_contents(&left, &right, true).unwrap();
    assert_eq!(outcomes.len(), 2);
    assert_eq!(outcomes[0].relative, "x.txt");
    assert_eq!(outcomes[0].result, ComparisonResult::Match);
    assert_eq!(outcomes[1].relative, "sub/y.txt");
    assert_eq!(outcomes[1].result, ComparisonResult::Match);
    assert!(outcomes.iter().all(|o| o.relative != "z.txt"));
    assert!(all_match(&outcomes));
}

#[test]
fn changed_content_is_a_mismatch() {
    let left_file = temp_file_with(b"hello");
    let right_file = temp_file_with(b"world");
    let left = vec![FileEntry { relative: "x.txt".to_string(), absolute: path_of(&left_file) }];
    let mut right = DirectoryIndex::new();
    right.insert("x.txt".to_string(), path_of(&right_file));

    let outcomes = compare_contents(&left, &right, true).unwrap();
    assert_eq!(outcomes.len(), 1);
    assert_eq!(outcomes[0].result, ComparisonResult::Mismatch);
    assert!(!all_match(&outcomes));
}

#[test]
fn a_left_only_path_yields_exactly_one_missing() {
    let only = temp_file_with(b"left only");
    let other = temp_file_with(b"present");
    let present_right = temp_file_with(b"present");
    let left = vec![
        FileEntry { relative: "only.txt".to_string(), absolute: path_of(&only) },
        FileEntry { relative: "both.txt".to_string(), absolute: path_of(&other) },
    ];
    let mut right = DirectoryIndex::new();
    right.insert("both.txt".to_string(), path_of(&present_right));

    let outcomes = compare_contents(&left, &right, true).unwrap();
    let missing: Vec<_> = outcomes
        .iter()
        .filter(|o| o.result == ComparisonResult::Missing)
        .collect();
    assert_eq!(missing.len(), 1);
    assert_eq!(missing[0].relative, "only.txt");
    assert!(!all_match(&outcomes));
}

#[test]
fn overlapping_roots_are_rejected() {
    assert!(matches!(
        ensure_distinct("/data/trees", "/data/trees/left"),
        Err(Error::InvalidOperation(OperationKind::Child))
    ));
    assert!(matches!(
        ensure_distinct("/data/trees/left", "/data/trees"),
        Err(Error::InvalidOperation(OperationKind::Child))
    ));
    assert!(matches!(
        ensure_distinct("/data/a", "/data/a"),
        Err(Error::InvalidOperation(OperationKind::Child))
    ));
    assert!(ensure_distinct("/data/ab", "/data/a").is_ok());
    assert!(ensure_distinct("/data/left", "/data/right").is_ok());
}

#[test]
fn fast_comparison_accepts_equal_length_files() {
    let a = temp_file_with(b"abcde");
    let b = temp_file_with(b"fghij");
    // The fast fingerprint trades accuracy for speed: equal lengths match.
    assert!(compare_with(false, &path_of(&a), &path_of(&b)).unwrap());
    let c = temp_file_with(b"longer than the others");
    assert!(!compare_with(false, &path_of(&a), &path_of(&c)).unwrap());
}

#[test]
fn judging_build_results_decides_equality_and_propagates_failures() {
    assert_eq!(FastComparer::judge(Ok(5), Ok(5)).unwrap(), true);
    assert_eq!(FastComparer::judge(Ok(5), Ok(6)).unwrap(), false);
    let gone = Error::Io(std::io::Error::new(std::io::ErrorKind::NotFound, "gone"));
    assert!(matches!(FastComparer::judge(Err(gone), Ok(5)), Err(Error::Io(_))));
    let gone = Error::Io(std::io::Error::new(std::io::ErrorKind::NotFound, "gone"));
    assert!(matches!(FastComparer::judge(Ok(5), Err(gone)), Err(Error::Io(_))));
}

#[test]
fn judging_full_build_results_compares_the_hashes() {
    let a = temp_file_with(b"same bytes");
    let b = temp_file_with(b"same bytes");
    let c = temp_file_with(b"other bytes");
    let ra = Blake3Comparer::build(&path_of(&a));
    let rb = Blake3Comparer::build(&path_of(&b));
    assert_eq!(Blake3Comparer::judge(ra, rb).unwrap(), true);
    let ra = Blake3Comparer::build(&path_of(&a));
    let rc = Blake3Comparer::build(&path_of(&c));
    assert_eq!(Blake3Comparer::judge(ra, rc).unwrap(), false);
}

#[test]
fn filtering_walk_entries_keeps_visible_regular_files() {
    let walked = vec![
        Some(("/r/a.txt".to_string(), true)),
        Some(("/r/sub".to_string(), false)),
        None,
        Some(("/r/.hidden".to_string(), true)),
        Some(("/r/b.txt".to_string(), true)),
    ];
    assert_eq!(filter_walked(&walked, false), vec!["/r/a.txt", "/r/b.txt"]);
    assert_eq!(
        filter_walked(&walked, true),
        vec!["/r/a.txt", "/r/.hidden", "/r/b.txt"]
    );
}
