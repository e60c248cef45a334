use checksum::alg::Algorithm;
use checksum::cli::Args;
use checksum::error::{Error, OperationKind};

fn args(target: Option<&str>, compare: Option<&str>) -> Args {
    Args {
        target: target.map(str::to_string),
        compare: compare.map(str::to_string),
        assert_hash: None,
        mode: None,
        force_full_compare: false,
        verbose: false,
        command: None,
    }
}

#[test]
fn target_returns_the_target_path() {
    let a = args(Some("/data/x"), None);
    assert_eq!(a.target(), "/data/x");
}

#[test]
fn mode_falls_back_to_the_default_algorithm() {
    let mut a = args(Some("/data/x"), None);
    assert!(matches!(a.mode(), Algorithm::Sha1));
    a.mode = Some(Algorithm::Blake3);
    assert!(matches!(a.mode(), Algorithm::Blake3));
}

#[test]
fn comparing_a_directory_against_a_file_is_refused() {
    let a = args(Some("/data/dir"), Some("/data/file"));
    assert!(matches!(
        a.validate(true, false),
        Err(Error::InvalidOperation(OperationKind::Dir))
    ));
    assert!(a.validate(true, true).is_ok());
    assert!(a.validate(false, false).is_ok());
    assert!(args(Some("/data/dir"), None).validate(true, false).is_ok());
}

#[test]
fn comparing_a_file_against_a_directory_is_refused() {
    let a = args(Some("/data/file"), Some("/data/dir"));
    assert!(matches!(
        a.validate(false, true),
        Err(Error::InvalidOperation(OperationKind::File))
    ));
    assert!(args(None, Some("/data/dir")).validate(false, true).is_ok());
}
