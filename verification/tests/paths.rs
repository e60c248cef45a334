use checksum::error::Error;
use checksum::hk::read_alg_from_path;
use checksum::paths::{get_relative_path, join_path, parent_dir, path_is_prefix};

#[test]
fn relative_path_strips_the_root_prefix() {
    assert_eq!(get_relative_path("/a", "/a/b/c.txt"), Some("b/c.txt".to_string()));
    assert_eq!(get_relative_path("/a/", "/a/b.txt"), Some("b.txt".to_string()));
    assert_eq!(get_relative_path("/a", "/a"), Some(String::new()));
    assert_eq!(get_relative_path("/a", "/ab"), None);
    assert_eq!(get_relative_path("/a/b", "/a"), None);
}

#[test]
fn join_resolves_names_against_a_parent() {
    assert_eq!(join_path("/data", "x.txt"), "/data/x.txt");
    assert_eq!(join_path("/data/", "x.txt"), "/data/x.txt");
    assert_eq!(join_path("", "x.txt"), "x.txt");
    assert_eq!(join_path("/data", "/abs/x.txt"), "/abs/x.txt");
}

#[test]
fn parent_dir_drops_the_final_component() {
    assert_eq!(parent_dir("/data/sums.md5"), "/data");
    assert_eq!(parent_dir("/sums.md5"), "/");
    assert_eq!(parent_dir("sums.md5"), "");
}

#[test]
fn path_prefixes_respect_component_boundaries() {
    assert!(path_is_prefix("/a", "/a/b"));
    assert!(path_is_prefix("/a", "/a"));
    assert!(path_is_prefix("/", "/a"));
    assert!(!path_is_prefix("/a", "/ab"));
}

#[test]
fn extension_names_the_manifest_algorithm() {
    assert_eq!(read_alg_from_path("/data/sums.md5").unwrap(), "md5");
    assert_eq!(read_alg_from_path("sums.sha256").unwrap(), "sha256");
    assert!(matches!(read_alg_from_path("/data/sums"), Err(Error::HashFile)));
    assert!(matches!(read_alg_from_path(".hidden"), Err(Error::HashFile)));
}
