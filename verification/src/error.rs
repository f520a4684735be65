//! Errors of the library's file handling.
use vstd::prelude::*;

verus! {

#[verifier::external_type_specification]
#[verifier::external_body]
pub struct ExIoError(std::io::Error);

/// Removing a directory that should have been empty failed.
#[derive(Debug)]
pub enum RemoveOnlyEmptyDirError {
    StdIo { path: String, source: std::io::Error },
}

} // verus!
