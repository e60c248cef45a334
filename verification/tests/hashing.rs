use checksum::alg::Algorithm;
use checksum::error::Error;
use checksum::fmt::LowerHexFormatter;
use checksum::hash::fmt_hex;
use checksum::text::str_eq_ci;

#[test]
fn hash_is_deterministic_on_equal_content() {
    let data = b"some file content".to_vec();
    let first = Algorithm::Sha256.hash(&data);
    let second = Algorithm::Sha256.hash(&data);
    assert_eq!(first, second);
}

#[test]
fn md5_of_empty_content() {
    assert_eq!(Algorithm::Md5.hash(&[]), "d41d8cd98f00b204e9800998ecf8427e");
}

#[test]
fn md5_of_hello() {
    assert_eq!(Algorithm::Md5.hash(b"hello"), "5d41402abc4b2a76b9719d911017c592");
}

#[test]
fn sha1_of_hello() {
    assert_eq!(Algorithm::Sha1.hash(b"hello"), "aaf4c61ddcc5e8a2dabede0f3b482cd9aea9434d");
}

#[test]
fn sha256_of_hello() {
    assert_eq!(
        Algorithm::Sha256.hash(b"hello"),
        "2cf24dba5fb0a30e26e83b2ac5b9e29e1b161e5c1fa7425e73043362938b9824"
    );
}

#[test]
fn sha512_of_empty_content() {
    assert_eq!(
        Algorithm::Sha512.hash(&[]),
        "cf83e1357eefb8bdf1542850d66d8007d620e4050b5715dc83f4a921d36ce9ce\
         47d0d13c5d85f2b0ff8318d2877eec2f63b931bd47417a81a538327af927da3e"
    );
}

#[test]
fn blake3_of_empty_content() {
    assert_eq!(
        Algorithm::Blake3.hash(&[]),
        "af1349b9f5f9a1a6a0404dea36dcc9499bcb25c9adc112b7cc9a93cae41f3262"
    );
}

#[test]
fn fmt_hex_is_two_lowercase_digits_per_byte() {
    assert_eq!(fmt_hex(&[]), "");
    assert_eq!(fmt_hex(&[0x00, 0xff, 0x1a]), "00ff1a");
}

#[test]
fn lower_hex_formatter_renders_bytes() {
    let f = LowerHexFormatter(vec![0xde, 0xad, 0xbe, 0xef]);
    assert_eq!(f.hex_string(), "deadbeef");
}

#[test]
fn from_str_accepts_names_case_insensitively() {
    assert!(matches!(Algorithm::from_str("blake3"), Ok(Algorithm::Blake3)));
    assert!(matches!(Algorithm::from_str("MD5"), Ok(Algorithm::Md5)));
    assert!(matches!(Algorithm::from_str("md5"), Ok(Algorithm::Md5)));
    assert!(matches!(Algorithm::from_str("Sha1"), Ok(Algorithm::Sha1)));
    assert!(matches!(Algorithm::from_str("sha256"), Ok(Algorithm::Sha256)));
    assert!(matches!(Algorithm::from_str("SHA512"), Ok(Algorithm::Sha512)));
}

#[test]
fn from_str_rejects_unknown_tokens() {
    match Algorithm::from_str("crc32") {
        Err(Error::UnknownAlgorithm(name)) => assert_eq!(name, "crc32"),
        other => panic!("expected UnknownAlgorithm, got {:?}", other),
    }
}

#[test]
fn default_algorithm_is_sha1() {
    assert!(matches!(Algorithm::default(), Algorithm::Sha1));
}

#[test]
fn algorithm_names() {
    assert_eq!(Algorithm::Blake3.name(), "Blake3");
    assert_eq!(Algorithm::Sha256.name(), "Sha256");
}

#[test]
fn case_insensitive_equality_folds_ascii_only() {
    assert!(str_eq_ci("ABC", "abc"));
    assert!(str_eq_ci("abc", "abc"));
    assert!(!str_eq_ci("ABC", "abd"));
    assert!(!str_eq_ci("abc", "abcd"));
    // Only ASCII letters fold; other characters must match exactly.
    assert!(!str_eq_ci("É", "é"));
}
