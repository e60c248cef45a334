//! A file- and directory-integrity library built around content digests.
//!
//! The library computes cryptographic digests of byte content, renders them
//! as lowercase hex, compares files and whole directory trees through a
//! pluggable comparer (a full cryptographic hash or a cheap fingerprint),
//! and parses and checks checksum-manifest files.

pub mod alg;
pub mod cli;
pub mod compare;
pub mod error;
pub mod fmt;
pub mod hash;
pub mod hk;
pub mod iter;
pub mod paths;
pub mod text;
