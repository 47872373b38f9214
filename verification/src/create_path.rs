//! The failure to create a directory.

use crate::file::IOError;
use vstd::prelude::*;

verus! {

/// A directory, or one above it, could not be created.
#[derive(Debug)]
pub struct CreatePathError {
    pub path: String,
    pub error: IOError,
}

impl CreatePathError {
    pub fn new(path: &str, error: IOError) -> (r: Self)
        ensures
            r.path@ == path@,
            r.error == error,
    {
        CreatePathError { path: path.to_owned(), error }
    }
}

} // verus!
