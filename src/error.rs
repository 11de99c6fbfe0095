use vstd::prelude::*;

verus! {

/// Why a source could not be turned into a local file.
#[derive(Debug, Clone, Copy, PartialEq, Eq, Structural)]
pub enum FetchError {
    /// The local path does not exist.
    SourceNotFound,
    /// The local path is a directory; a source must be a single file.
    SourceIsDirectory,
    /// The server answered with a non-success status.
    FetchFailed,
    /// Reading or writing a file failed.
    Io,
}

/// The kinds of failure of the pipeline.
#[derive(Debug, Clone, Copy, PartialEq, Eq, Structural)]
pub enum ErrorKind {
    SourceNotFound,
    SourceIsDirectory,
    FetchFailed,
    /// A cache document is absent: install has not run.
    ManifestMissing,
    /// The declared dependencies no longer match the installed ones.
    StaleCache,
    /// An archive lacks its embedded manifest.
    InvalidPackage,
    /// A file that is not binary is not valid UTF-8.
    DecodeError,
    IoError,
}

/// A failure, with what it concerns (a dependency name or a path).
#[derive(Debug, Clone)]
pub struct Error {
    pub kind: ErrorKind,
    pub subject: String,
}

impl FetchError {
    /// The pipeline's kind for this fetch failure.
    pub fn kind(&self) -> (r: ErrorKind)
        ensures
            r == self.kind_spec(),
    {
        match self {
            FetchError::SourceNotFound => ErrorKind::SourceNotFound,
            FetchError::SourceIsDirectory => ErrorKind::SourceIsDirectory,
            FetchError::FetchFailed => ErrorKind::FetchFailed,
            FetchError::Io => ErrorKind::IoError,
        }
    }

    pub open spec fn kind_spec(&self) -> ErrorKind {
        match self {
            FetchError::SourceNotFound => ErrorKind::SourceNotFound,
            FetchError::SourceIsDirectory => ErrorKind::SourceIsDirectory,
            FetchError::FetchFailed => ErrorKind::FetchFailed,
            FetchError::Io => ErrorKind::IoError,
        }
    }
}

impl Error {
    /// An error of the given kind about `subject`.
    pub fn new(kind: ErrorKind, subject: String) -> (r: Error)
        ensures
            r.kind == kind,
            r.subject == subject,
    {
        Error { kind, subject }
    }
}

} // verus!
