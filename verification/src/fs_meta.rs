//! Plain filesystem metadata values handed between the build pipeline's
//! readers and the library, and the filesystem error type.

use vstd::prelude::*;

verus! {

/// What kind of entry a path points at.
#[derive(Debug, Clone, Copy, PartialEq, Eq, Structural)]
pub struct Metadata {
    pub is_dir: bool,
    pub is_file: bool,
    pub is_symlink: bool,
}

/// One directory entry: its name, its full path, and its metadata.
#[derive(Debug)]
pub struct DirEntry {
    pub name: String,
    pub path: String,
    pub metadata: Metadata,
}

#[verifier::external_type_specification]
#[verifier::external_body]
pub struct ExIoError(std::io::Error);

/// A filesystem error.
#[derive(Debug)]
pub enum Error {
    /// Generic I/O error.
    Io(std::io::Error),
}

impl Error {
    /// Wraps an I/O error, preserving it intact.
    pub fn from(value: std::io::Error) -> (r: Error)
        ensures
            r == Error::Io(value),
    {
        Error::Io(value)
    }
}

} // verus!
