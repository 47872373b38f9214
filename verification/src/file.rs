//! What the library is told about files: whether a file could be read, and
//! why not.

use vstd::prelude::*;

verus! {

/// What was being done to a file when it failed.
#[derive(PartialEq, Eq, Structural, Debug, Clone, Copy)]
pub enum Action {
    Close,
    Create,
    Open,
    Read,
    Seek,
    Write,
}

impl Action {
    /// The action as it reads in a message: "opening", "reading", ...
    pub fn as_str(&self) -> (r: &'static str)
        ensures
            r@ == self.spec_str(),
    {
        match self {
            Action::Close => "closing",
            Action::Create => "creating",
            Action::Open => "opening",
            Action::Read => "reading",
            Action::Seek => "seeking",
            Action::Write => "writing",
        }
    }

    pub open spec fn spec_str(&self) -> Seq<char> {
        match self {
            Action::Close => "closing"@,
            Action::Create => "creating"@,
            Action::Open => "opening"@,
            Action::Read => "reading"@,
            Action::Seek => "seeking"@,
            Action::Write => "writing"@,
        }
    }
}

/// The failures of the file system that the library tells apart.
#[derive(PartialEq, Eq, Structural, Debug, Clone, Copy)]
pub enum IOErrorKind {
    /// The file does not exist.
    NotFound,
    /// The file may not be read or written.
    PermissionDenied,
    /// The file ended before all that was asked for had been read.
    UnexpectedEof,
    /// Anything else.
    Other,
}

/// A failure of the file system, as reported by whoever tried to read the file.
#[derive(PartialEq, Eq, Structural, Debug, Clone, Copy)]
pub struct IOError {
    pub kind: IOErrorKind,
}

impl IOError {
    pub fn new(kind: IOErrorKind) -> (r: Self)
        ensures
            r.kind == kind,
    {
        IOError { kind }
    }

    /// The failure of a file that does not exist.
    pub fn not_found() -> (r: Self)
        ensures
            r.kind == IOErrorKind::NotFound,
    {
        IOError { kind: IOErrorKind::NotFound }
    }

    /// The failure of a read past the end of a file.
    pub fn unexpected_eof() -> (r: Self)
        ensures
            r.kind == IOErrorKind::UnexpectedEof,
    {
        IOError { kind: IOErrorKind::UnexpectedEof }
    }

    pub fn kind(&self) -> (r: IOErrorKind)
        ensures
            r == self.kind,
    {
        self.kind
    }
}

/// A failure of the file system on a given file.
#[derive(Debug)]
pub struct FileError {
    pub action: Action,
    pub path: String,
    pub error: IOError,
}

impl FileError {
    pub fn new(action: Action, path: &str, error: IOError) -> (r: Self)
        ensures
            r.action == action,
            r.path@ == path@,
            r.error == error,
    {
        FileError { action, path: path.to_owned(), error }
    }

    pub fn action(&self) -> (r: &Action)
        ensures
            *r == self.action,
    {
        &self.action
    }

    pub fn path(&self) -> (r: &String)
        ensures
            *r == self.path,
    {
        &self.path
    }

    pub fn error(&self) -> (r: &IOError)
        ensures
            *r == self.error,
    {
        &self.error
    }
}

} // verus!
