//! The command-line surface as plain data, and its shape validation.
//!
//! Argument parsing itself belongs to the excluded dispatch collaborator;
//! this module holds the parsed values and the one eager check that runs
//! before any hashing work.

use vstd::prelude::*;

use crate::alg::Algorithm;
use crate::error::{Error, OperationKind};

verus! {

/// One parsed invocation: a target, an optional comparison target or hash
/// assertion, the algorithm choice, and the comparison flags.
pub struct Args {
    /// A file or directory.
    pub target: Option<String>,
    /// A file or directory to compare the target against.
    pub compare: Option<String>,
    /// A hash value to assert the target's digest against.
    pub assert_hash: Option<String>,
    /// The hashing algorithm to be used, when one was specified.
    pub mode: Option<Algorithm>,
    /// Force a full comparison instead of the fast default.
    pub force_full_compare: bool,
    /// Report matching files, not only failures.
    pub verbose: bool,
    /// A subcommand, when one was given.
    pub command: Option<Command>,
}

pub enum Command {
    File(FileCommand),
}

pub struct FileCommand {
    pub path: String,
}

impl Args {
    /// The target path. Only invocations without a subcommand call this,
    /// and those always carry a target.
    pub fn target(&self) -> (r: &str)
        requires
            self.target is Some,
        ensures
            r@ == self.target.unwrap()@,
    {
        self.target.as_ref().unwrap().as_str()
    }

    /// The selected algorithm, or the default when none was specified.
    pub fn mode(&self) -> (r: Algorithm)
        ensures
            r == match self.mode {
                Some(m) => m,
                None => Algorithm::Sha1,
            },
    {
        match &self.mode {
            Some(m) => *m,
            None => Algorithm::default(),
        }
    }

    /// The eager shape check that runs before any hashing: a category
    /// mismatch between the two paths — a directory against a
    /// non-directory, or a file against a directory — is refused. The
    /// caller states whether each present path is a directory.
    pub fn validate(&self, target_is_dir: bool, compare_is_dir: bool) -> (r: Result<(), Error>)
        ensures
            r is Ok <==> !(self.target is Some && self.compare is Some && target_is_dir
                != compare_is_dir),
            (self.target is Some && self.compare is Some && target_is_dir && !compare_is_dir)
                ==> (r matches Err(e) && e matches Error::InvalidOperation(k) && k
                == OperationKind::Dir),
            (self.target is Some && self.compare is Some && !target_is_dir && compare_is_dir)
                ==> (r matches Err(e) && e matches Error::InvalidOperation(k) && k
                == OperationKind::File),
    {
        if self.target.is_some() && self.compare.is_some() {
            if target_is_dir && !compare_is_dir {
                return Err(Error::InvalidOperation(OperationKind::Dir));
            }
            if !target_is_dir && compare_is_dir {
                return Err(Error::InvalidOperation(OperationKind::File));
            }
        }
        Ok(())
    }
}

} // verus!
