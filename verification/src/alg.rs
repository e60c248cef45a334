//! The closed set of digest algorithms and algorithm-tagged hashing.

use vstd::prelude::*;

use crate::error::Error;
use crate::hash::{
    blake3_digest, blake3_of, fmt_hex, hex_of, md5_digest, md5_of, sha1_digest, sha1_of,
    sha256_digest, sha256_of, sha512_digest, sha512_of,
};
use crate::text::{seq_eq_ci, str_eq_ci};

verus! {

/// One member of the closed set of supported digest algorithms.
#[derive(Clone, Copy, Debug, PartialEq, Eq, Structural)]
pub enum Algorithm {
    Blake3,
    Md5,
    Sha1,
    Sha256,
    Sha512,
}

/// The digest of a byte sequence under the given algorithm.
pub open spec fn spec_digest(alg: Algorithm, data: Seq<u8>) -> Seq<u8> {
    match alg {
        Algorithm::Blake3 => blake3_of(data),
        Algorithm::Md5 => md5_of(data),
        Algorithm::Sha1 => sha1_of(data),
        Algorithm::Sha256 => sha256_of(data),
        Algorithm::Sha512 => sha512_of(data),
    }
}

/// The byte length of the given algorithm's digest; its hex rendering is
/// twice as many characters.
pub open spec fn digest_len(alg: Algorithm) -> nat {
    match alg {
        Algorithm::Blake3 => 32,
        Algorithm::Md5 => 16,
        Algorithm::Sha1 => 20,
        Algorithm::Sha256 => 32,
        Algorithm::Sha512 => 64,
    }
}

/// The algorithm a case-insensitive name token denotes, if any.
pub open spec fn token_alg(s: Seq<char>) -> Option<Algorithm> {
    if seq_eq_ci(s, "BLAKE3"@) {
        Some(Algorithm::Blake3)
    } else if seq_eq_ci(s, "MD5"@) {
        Some(Algorithm::Md5)
    } else if seq_eq_ci(s, "SHA1"@) {
        Some(Algorithm::Sha1)
    } else if seq_eq_ci(s, "SHA256"@) {
        Some(Algorithm::Sha256)
    } else if seq_eq_ci(s, "SHA512"@) {
        Some(Algorithm::Sha512)
    } else {
        None
    }
}

impl Default for Algorithm {
    /// The algorithm used when none is specified.
    fn default() -> (r: Self)
        ensures
            r == Algorithm::Sha1,
    {
        Algorithm::Sha1
    }
}

impl Algorithm {
    /// Parses a case-insensitive algorithm name token. Unrecognized tokens
    /// fail with `UnknownAlgorithm`, carrying the token unchanged.
    pub fn from_str(s: &str) -> (r: Result<Algorithm, Error>)
        ensures
            token_alg(s@) matches Some(a) ==> r == Ok::<Algorithm, Error>(a),
            token_alg(s@) is None ==> (r matches Err(e) && e matches Error::UnknownAlgorithm(name)
                && name@ == s@),
    {
        if str_eq_ci(s, "BLAKE3") {
            Ok(Algorithm::Blake3)
        } else if str_eq_ci(s, "MD5") {
            Ok(Algorithm::Md5)
        } else if str_eq_ci(s, "SHA1") {
            Ok(Algorithm::Sha1)
        } else if str_eq_ci(s, "SHA256") {
            Ok(Algorithm::Sha256)
        } else if str_eq_ci(s, "SHA512") {
            Ok(Algorithm::Sha512)
        } else {
            Err(Error::UnknownAlgorithm(s.to_owned()))
        }
    }

    /// The algorithm's display name.
    pub open spec fn spec_name(self) -> Seq<char> {
        match self {
            Algorithm::Blake3 => "Blake3"@,
            Algorithm::Md5 => "Md5"@,
            Algorithm::Sha1 => "Sha1"@,
            Algorithm::Sha256 => "Sha256"@,
            Algorithm::Sha512 => "Sha512"@,
        }
    }

    /// The algorithm's display name.
    pub fn name(self) -> (r: &'static str)
        ensures
            r@ == self.spec_name(),
    {
        match self {
            Algorithm::Blake3 => "Blake3",
            Algorithm::Md5 => "Md5",
            Algorithm::Sha1 => "Sha1",
            Algorithm::Sha256 => "Sha256",
            Algorithm::Sha512 => "Sha512",
        }
    }

    /// Hashes the given content and renders the digest as lowercase hex,
    /// at the algorithm's fixed hex width.
    pub fn hash(self, data: &[u8]) -> (r: String)
        ensures
            r@ == hex_of(spec_digest(self, data@)),
            r@.len() == 2 * digest_len(self),
    {
        let digest = match self {
            Algorithm::Blake3 => blake3_digest(data),
            Algorithm::Md5 => md5_digest(data),
            Algorithm::Sha1 => sha1_digest(data),
            Algorithm::Sha256 => sha256_digest(data),
            Algorithm::Sha512 => sha512_digest(data),
        };
        proof {
            crate::hash::lemma_hex_of_shape(digest@);
        }
        fmt_hex(digest.as_slice())
    }
}

/// Hashing is deterministic: any two results that the `hash` contract
/// admits for one algorithm and one content are the same string.
pub proof fn lemma_hash_deterministic(alg: Algorithm, data: Seq<u8>, r1: Seq<char>, r2: Seq<char>)
    requires
        r1 == hex_of(spec_digest(alg, data)),
        r2 == hex_of(spec_digest(alg, data)),
    ensures
        r1 == r2,
{
}

/// Byte-identical content hashes identically: equality of the input bytes
/// forces equality of the rendered digests.
pub proof fn lemma_equal_content_equal_hash(alg: Algorithm, a: Seq<u8>, b: Seq<u8>)
    requires
        a == b,
    ensures
        hex_of(spec_digest(alg, a)) == hex_of(spec_digest(alg, b)),
{
}

} // verus!
