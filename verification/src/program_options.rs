//! The options that the program is started with.

use std::path::PathBuf;

use vstd::prelude::*;

verus! {

/// `std::path::PathBuf`, carried from the command line to where files are
/// opened.
#[verifier::external_type_specification]
#[verifier::external_body]
pub struct ExPathBuf(PathBuf);

/// Parameters for the program
#[derive(Debug)]
pub struct Parameters {
    /// Destination file
    ///
    /// If it is unspecified, standard output is used.
    pub output: Option<PathBuf>,
    /// Directory to scan for files
    ///
    /// If it is unspecified, current working directory is used.
    pub directory: Option<PathBuf>,
}

} // verus!
